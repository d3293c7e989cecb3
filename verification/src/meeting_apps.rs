//! The catalog of meeting applications: which app is a meeting, and whose sound
//! may be captured.
use crate::paths;
use crate::platform::Platform;
use crate::text;
use vstd::prelude::*;
use vstd::string::*;

verus! {

#[derive(Debug, Clone, Copy, PartialEq, Eq, Structural)]
pub enum MeetingAppKind {
    Meeting,
    Browser,
}

/// What an app is to meeting detection.
#[derive(Debug, Clone, Copy, PartialEq, Eq, Structural)]
pub enum AppClass {
    NativeMeeting,
    Browser,
    Other,
}

impl MeetingAppKind {
    pub open spec fn class(self) -> AppClass {
        match self {
            MeetingAppKind::Meeting => AppClass::NativeMeeting,
            MeetingAppKind::Browser => AppClass::Browser,
        }
    }

    fn app_class(self) -> (r: AppClass)
        ensures
            r == self.class(),
    {
        match self {
            Self::Meeting => AppClass::NativeMeeting,
            Self::Browser => AppClass::Browser,
        }
    }
}

/// The identifier of an app: as it is written, and without what tells the helper
/// processes of an app apart.
#[derive(Debug, Clone, PartialEq, Eq)]
pub struct BundleId {
    pub written: String,
    pub normalized: String,
}

impl BundleId {
    /// What identifiers are compared by.
    pub open spec fn key(self) -> Seq<char> {
        text::lower(self.normalized@)
    }
}

#[derive(Debug, Clone, PartialEq, Eq)]
pub struct MeetingAppEntry {
    pub name: String,
    pub kind: MeetingAppKind,
    pub bundle_ids: Vec<BundleId>,
    pub detect: bool,
    pub capture: bool,
}

#[derive(Debug, Clone, PartialEq, Eq)]
pub struct MeetingAppCatalog {
    pub version: u32,
    pub applications: Vec<MeetingAppEntry>,
}

/// The version of the catalogs that are read.
pub const CATALOG_VERSION: u32 = 1;

impl Default for MeetingAppCatalog {
    fn default() -> (r: Self)
        ensures
            r.version == CATALOG_VERSION,
            r.applications@.len() == 0,
    {
        MeetingAppCatalog { version: CATALOG_VERSION, applications: Vec::new() }
    }
}

#[derive(Debug, Clone, PartialEq, Eq)]
pub struct MeetingAppCatalogDto {
    pub path: String,
    pub version: u32,
    pub applications: Vec<MeetingAppEntry>,
    pub load_error: Option<String>,
}

/// The catalog in use, and why the last one could not be loaded.
pub struct MeetingAppRegistry {
    pub path: String,
    pub catalog: MeetingAppCatalog,
    pub last_load_error: Option<String>,
}

// ---------------------------------------------------------------------------
// Valid catalogs
// ---------------------------------------------------------------------------

/// The keys before `at` and those of the identifiers, or the words that refuse
/// the first identifier that cannot stand.
pub open spec fn check_ids(
    name: Seq<char>,
    ids: Seq<BundleId>,
    at: int,
    seen: Seq<Seq<char>>,
) -> Result<Seq<Seq<char>>, Seq<char>>
    decreases ids.len() - at,
{
    if at < 0 || at >= ids.len() {
        Ok(seen)
    } else if ids[at].normalized@.len() == 0 {
        Err("application '"@ + name + "' has an empty bundle id"@)
    } else if text::occurs(ids[at].key(), "com.lumenopen.asr"@) {
        Err("Lumen itself cannot be a meeting capture target"@)
    } else if seen.contains(ids[at].key()) {
        Err("bundle id '"@ + ids[at].normalized@ + "' appears more than once"@)
    } else {
        check_ids(name, ids, at + 1, seen.push(ids[at].key()))
    }
}

/// The keys of the applications from `at` on, after those seen before, or the
/// words that refuse the first application that cannot stand.
pub open spec fn check_apps(apps: Seq<MeetingAppEntry>, at: int, seen: Seq<Seq<char>>) -> Result<
    Seq<Seq<char>>,
    Seq<char>,
>
    decreases apps.len() - at,
{
    if at < 0 || at >= apps.len() {
        Ok(seen)
    } else if text::trim(apps[at].name@).len() == 0 {
        Err("application "@ + text::decimal((at + 1) as nat) + " has an empty name"@)
    } else if apps[at].bundle_ids@.len() == 0 {
        Err("application '"@ + apps[at].name@ + "' must contain at least one bundle id"@)
    } else {
        match check_ids(apps[at].name@, apps[at].bundle_ids@, 0, seen) {
            Ok(keys) => check_apps(apps, at + 1, keys),
            Err(error) => Err(error),
        }
    }
}

/// Why a catalog is refused.
pub open spec fn catalog_error(catalog: MeetingAppCatalog) -> Option<Seq<char>> {
    if catalog.version != CATALOG_VERSION {
        Some(
            "unsupported meeting-app catalog version "@ + text::decimal(catalog.version as nat)
                + "; expected "@ + text::decimal(CATALOG_VERSION as nat),
        )
    } else {
        match check_apps(catalog.applications@, 0, Seq::empty()) {
            Ok(_) => None,
            Err(error) => Some(error),
        }
    }
}

fn seen_before(seen: &Vec<String>, key: &str) -> (r: bool)
    ensures
        r == text::texts(seen@).contains(key@),
{
    let ghost all = text::texts(seen@);
    let mut i: usize = 0;
    while i < seen.len()
        invariant
            i <= seen@.len(),
            all == text::texts(seen@),
            forall|j: int| 0 <= j < i ==> #[trigger] all[j] != key@,
        decreases seen@.len() - i,
    {
        assert(all[i as int] == seen@[i as int]@);
        if text::same(seen[i].as_str(), key) {
            return true;
        }
        i = i + 1;
    }
    false
}

fn validate_ids(name: &str, ids: &Vec<BundleId>, seen: &mut Vec<String>) -> (r: Result<(), String>)
    ensures
        match check_ids(name@, ids@, 0, text::texts(old(seen)@)) {
            Ok(keys) => r is Ok && text::texts(final(seen)@) == keys,
            Err(error) => text::fails(r, error),
        },
{
    let ghost start = text::texts(seen@);
    let mut i: usize = 0;
    while i < ids.len()
        invariant
            i <= ids@.len(),
            start == text::texts(old(seen)@),
            check_ids(name@, ids@, 0, start) == check_ids(
                name@,
                ids@,
                i as int,
                text::texts(seen@),
            ),
        decreases ids@.len() - i,
    {
        let normalized: &str = ids[i].normalized.as_str();
        if normalized.is_empty() {
            return Err(text::glue3("application '", name, "' has an empty bundle id"));
        }
        let key: String = text::lowered(normalized);
        if text::contains(key.as_str(), "com.lumenopen.asr") {
            return Err("Lumen itself cannot be a meeting capture target".to_owned());
        }
        if seen_before(seen, key.as_str()) {
            return Err(text::glue3("bundle id '", normalized, "' appears more than once"));
        }
        let ghost had = text::texts(seen@);
        seen.push(key);
        assert(text::texts(seen@) =~= had.push(ids@[i as int].key()));
        i = i + 1;
    }
    Ok(())
}

/// Whether a catalog can be used: its version is known, every application has a
/// name and an identifier, none is this app, and no identifier occurs twice.
pub fn validate_catalog(catalog: &MeetingAppCatalog) -> (r: Result<(), String>)
    requires
        catalog.applications@.len() < u64::MAX,
    ensures
        match catalog_error(*catalog) {
            Some(error) => text::fails(r, error),
            None => r is Ok,
        },
{
    if catalog.version != CATALOG_VERSION {
        let head: String = text::glue3(
            "unsupported meeting-app catalog version ",
            text::decimal_text(catalog.version as u64).as_str(),
            "; expected ",
        );
        return Err(text::glue(head.as_str(), text::decimal_text(CATALOG_VERSION as u64).as_str()));
    }
    let mut seen: Vec<String> = Vec::new();
    let apps: &Vec<MeetingAppEntry> = &catalog.applications;
    let mut i: usize = 0;
    assert(text::texts(seen@) =~= Seq::empty());
    while i < apps.len()
        invariant
            i <= apps@.len() < u64::MAX,
            apps@ == catalog.applications@,
            catalog.version == CATALOG_VERSION,
            check_apps(apps@, 0, Seq::empty()) == check_apps(
                apps@,
                i as int,
                text::texts(seen@),
            ),
        decreases apps@.len() - i,
    {
        let entry: &MeetingAppEntry = &apps[i];
        if text::is_blank(entry.name.as_str()) {
            return Err(
                text::glue3(
                    "application ",
                    text::decimal_text(i as u64 + 1).as_str(),
                    " has an empty name",
                ),
            );
        }
        if entry.bundle_ids.len() == 0 {
            return Err(
                text::glue3(
                    "application '",
                    entry.name.as_str(),
                    "' must contain at least one bundle id",
                ),
            );
        }
        validate_ids(entry.name.as_str(), &entry.bundle_ids, &mut seen)?;
        i = i + 1;
    }
    Ok(())
}

/// The entry names the key.
pub open spec fn names_key(entry: MeetingAppEntry, key: Seq<char>) -> bool {
    exists|i: int| 0 <= i < entry.bundle_ids@.len() && (#[trigger] entry.bundle_ids@[i]).key() == key
}

proof fn lemma_checked_ids(name: Seq<char>, ids: Seq<BundleId>, at: int, seen: Seq<Seq<char>>)
    requires
        0 <= at <= ids.len(),
        check_ids(name, ids, at, seen) is Ok,
    ensures
        ({
            let keys = check_ids(name, ids, at, seen)->Ok_0;
            &&& forall|x: Seq<char>| seen.contains(x) ==> #[trigger] keys.contains(x)
            &&& forall|i: int|
                at <= i < ids.len() ==> keys.contains((#[trigger] ids[i]).key()) && !seen.contains(
                    ids[i].key(),
                )
            &&& forall|i: int|
                at <= i < ids.len() ==> !text::occurs(
                    (#[trigger] ids[i]).key(),
                    "com.lumenopen.asr"@,
                )
        }),
    decreases ids.len() - at,
{
    if at < ids.len() {
        let next = seen.push(ids[at].key());
        lemma_checked_ids(name, ids, at + 1, next);
        let keys = check_ids(name, ids, at, seen)->Ok_0;
        assert(next[seen.len() as int] == ids[at].key());
        assert(next.contains(ids[at].key()));
        assert forall|x: Seq<char>| seen.contains(x) implies #[trigger] keys.contains(x) by {
            assert(next[seen.index_of(x)] == x);
            assert(next.contains(x));
        }
        assert forall|i: int| at <= i < ids.len() implies keys.contains((#[trigger] ids[i]).key())
            && !seen.contains(ids[i].key()) by {
            if i > at && seen.contains(ids[i].key()) {
                assert(next[seen.index_of(ids[i].key())] == ids[i].key());
                assert(next.contains(ids[i].key()));
            }
        }
    }
}

proof fn lemma_checked_apps(apps: Seq<MeetingAppEntry>, at: int, seen: Seq<Seq<char>>)
    requires
        0 <= at <= apps.len(),
        check_apps(apps, at, seen) is Ok,
    ensures
        forall|i: int, key: Seq<char>|
            at <= i < apps.len() && seen.contains(key) ==> !(#[trigger] names_key(apps[i], key)),
        forall|i: int, j: int, key: Seq<char>|
            at <= i < j < apps.len() && #[trigger] names_key(apps[i], key) ==> !(
            #[trigger] names_key(apps[j], key)),
        forall|i: int, key: Seq<char>|
            at <= i < apps.len() && #[trigger] names_key(apps[i], key) ==> !text::occurs(
                key,
                "com.lumenopen.asr"@,
            ),
    decreases apps.len() - at,
{
    if at < apps.len() {
        let ids = apps[at].bundle_ids@;
        lemma_checked_ids(apps[at].name@, ids, 0, seen);
        let keys = check_ids(apps[at].name@, ids, 0, seen)->Ok_0;
        lemma_checked_apps(apps, at + 1, keys);
        assert forall|i: int, key: Seq<char>|
            at <= i < apps.len() && seen.contains(key) implies !(#[trigger] names_key(
            apps[i],
            key,
        )) by {
            if i > at {
                assert(keys.contains(key));
            } else if names_key(apps[at], key) {
                let k = choose|k: int| 0 <= k < ids.len() && (#[trigger] ids[k]).key() == key;
                assert(!seen.contains(ids[k].key()));
            }
        }
        assert forall|i: int, j: int, key: Seq<char>|
            at <= i < j < apps.len() && #[trigger] names_key(apps[i], key) implies !(
        #[trigger] names_key(apps[j], key)) by {
            if i == at {
                let k = choose|k: int| 0 <= k < ids.len() && (#[trigger] ids[k]).key() == key;
                assert(keys.contains(ids[k].key()));
            }
        }
        assert forall|i: int, key: Seq<char>|
            at <= i < apps.len() && #[trigger] names_key(apps[i], key) implies !text::occurs(
            key,
            "com.lumenopen.asr"@,
        ) by {
            if i == at {
                let k = choose|k: int| 0 <= k < ids.len() && (#[trigger] ids[k]).key() == key;
                assert(!text::occurs(ids[k].key(), "com.lumenopen.asr"@));
            }
        }
    }
}

/// A catalog that can be used is unambiguous: no identifier stands in two
/// applications, in whatever case, and this app stands in none.
pub proof fn valid_catalog_is_unambiguous(
    catalog: MeetingAppCatalog,
    i: int,
    j: int,
    key: Seq<char>,
)
    requires
        catalog_error(catalog) is None,
        0 <= i < catalog.applications@.len(),
        0 <= j < catalog.applications@.len(),
        names_key(catalog.applications@[i], key),
        names_key(catalog.applications@[j], key),
    ensures
        i == j,
        !text::occurs(key, "com.lumenopen.asr"@),
{
    lemma_checked_apps(catalog.applications@, 0, Seq::empty());
}

// ---------------------------------------------------------------------------
// The registry
// ---------------------------------------------------------------------------

/// The entry is one for a key; `require_detect` leaves out those that are not
/// detected.
pub open spec fn is_for(entry: MeetingAppEntry, key: Seq<char>, require_detect: bool) -> bool {
    (!require_detect || entry.detect) && names_key(entry, key)
}

/// The first entry for a key.
pub open spec fn first_for(
    apps: Seq<MeetingAppEntry>,
    key: Seq<char>,
    require_detect: bool,
    at: int,
) -> Option<MeetingAppEntry>
    decreases apps.len() - at,
{
    if at < 0 || at >= apps.len() {
        None
    } else if is_for(apps[at], key, require_detect) {
        Some(apps[at])
    } else {
        first_for(apps, key, require_detect, at + 1)
    }
}

/// The identifiers of the entries whose sound is captured for a meeting that was
/// started by hand.
pub open spec fn capture_ids(apps: Seq<MeetingAppEntry>) -> Seq<Seq<char>>
    decreases apps.len(),
{
    if apps.len() == 0 {
        Seq::empty()
    } else {
        let before = capture_ids(apps.drop_last());
        let last = apps.last();
        if last.capture && last.kind is Meeting {
            before + last.bundle_ids@.map_values(|id: BundleId| id.written@)
        } else {
            before
        }
    }
}

fn has_key(entry: &MeetingAppEntry, key: &str) -> (r: bool)
    ensures
        r == names_key(*entry, key@),
{
    let mut i: usize = 0;
    while i < entry.bundle_ids.len()
        invariant
            i <= entry.bundle_ids@.len(),
            forall|j: int| 0 <= j < i ==> (#[trigger] entry.bundle_ids@[j]).key() != key@,
        decreases entry.bundle_ids@.len() - i,
    {
        let candidate: String = text::lowered(entry.bundle_ids[i].normalized.as_str());
        if text::same(candidate.as_str(), key) {
            assert(entry.bundle_ids@[i as int].key() == key@);
            return true;
        }
        i = i + 1;
    }
    false
}

impl MeetingAppRegistry {
    /// No applications, until a catalog is loaded.
    pub fn new(path: String) -> (r: Self)
        ensures
            r.path == path,
            r.catalog.version == CATALOG_VERSION,
            r.catalog.applications@.len() == 0,
            r.last_load_error is None,
    {
        MeetingAppRegistry { path, catalog: MeetingAppCatalog::default(), last_load_error: None }
    }

    /// Takes a catalog that was read, or remembers why it could not be. A catalog
    /// that cannot be used never replaces the one in use.
    pub fn reload(&mut self, read: Result<MeetingAppCatalog, String>) -> (r: Result<(), String>)
        requires
            read matches Ok(catalog) ==> catalog.applications@.len() < u64::MAX,
        ensures
            final(self).path == old(self).path,
            text::opt(final(self).last_load_error) == (match r {
                Ok(()) => None,
                Err(error) => Some(error@),
            }),
            match read {
                Err(error) => text::fails(r, error@) && final(self).catalog == old(self).catalog,
                Ok(catalog) => match catalog_error(catalog) {
                    Some(error) => text::fails(r, error) && final(self).catalog
                        == old(self).catalog,
                    None => r is Ok && final(self).catalog == catalog,
                },
            },
    {
        let result: Result<(), String> = match read {
            Err(error) => Err(error),
            Ok(catalog) => match validate_catalog(&catalog) {
                Ok(()) => {
                    self.catalog = catalog;
                    Ok(())
                },
                Err(error) => Err(error),
            },
        };
        self.last_load_error = match &result {
            Ok(()) => None,
            Err(error) => Some(error.as_str().to_owned()),
        };
        result
    }

    /// Takes a catalog that was checked and written.
    pub fn saved(&mut self, catalog: MeetingAppCatalog)
        requires
            catalog_error(catalog) is None,
        ensures
            final(self).path == old(self).path,
            final(self).catalog == catalog,
            final(self).last_load_error is None,
    {
        self.catalog = catalog;
        self.last_load_error = None;
    }

    /// Remembers why the catalog could not be loaded.
    pub fn set_load_error(&mut self, error: Option<String>)
        ensures
            final(self).path == old(self).path,
            final(self).catalog == old(self).catalog,
            final(self).last_load_error == error,
    {
        self.last_load_error = error;
    }

    /// The catalog as the interface shows it.
    pub fn snapshot(&self, platform: Platform) -> (r: MeetingAppCatalogDto)
        ensures
            r.path@ == paths::shown(self.path@, platform is Windows),
            r.version == self.catalog.version,
            same_entries(r.applications@, self.catalog.applications@),
            text::opt(r.load_error) == text::opt(self.last_load_error),
    {
        let mut applications: Vec<MeetingAppEntry> = Vec::new();
        let apps: &Vec<MeetingAppEntry> = &self.catalog.applications;
        let mut i: usize = 0;
        while i < apps.len()
            invariant
                i <= apps@.len(),
                apps@ == self.catalog.applications@,
                applications@.len() == i,
                forall|j: int| 0 <= j < i ==> same_entry(#[trigger] applications@[j], apps@[j]),
            decreases apps@.len() - i,
        {
            applications.push(copy_entry(&apps[i]));
            i = i + 1;
        }
        MeetingAppCatalogDto {
            path: paths::display_path(self.path.as_str(), platform),
            version: self.catalog.version,
            applications,
            load_error: text::copy_opt(&self.last_load_error),
        }
    }

    fn find(&self, normalized: &str, require_detect: bool) -> (r: Option<usize>)
        ensures
            match first_for(
                self.catalog.applications@,
                text::lower(normalized@),
                require_detect,
                0,
            ) {
                Some(entry) => r matches Some(i) && i < self.catalog.applications@.len()
                    && self.catalog.applications@[i as int] == entry,
                None => r is None,
            },
    {
        let wanted: String = text::lowered(normalized);
        let apps: &Vec<MeetingAppEntry> = &self.catalog.applications;
        let mut i: usize = 0;
        while i < apps.len()
            invariant
                i <= apps@.len(),
                apps@ == self.catalog.applications@,
                wanted@ == text::lower(normalized@),
                first_for(apps@, wanted@, require_detect, 0) == first_for(
                    apps@,
                    wanted@,
                    require_detect,
                    i as int,
                ),
            decreases apps@.len() - i,
        {
            if (!require_detect || apps[i].detect) && has_key(&apps[i], wanted.as_str()) {
                return Some(i);
            }
            i = i + 1;
        }
        None
    }

    /// What an app is to meeting detection, by its normalized identifier.
    pub fn classify(&self, normalized: &str) -> (r: AppClass)
        ensures
            r == match first_for(
                self.catalog.applications@,
                text::lower(normalized@),
                true,
                0,
            ) {
                Some(entry) => entry.kind.class(),
                None => AppClass::Other,
            },
    {
        match self.find(normalized, true) {
            Some(i) => self.catalog.applications[i].kind.app_class(),
            None => AppClass::Other,
        }
    }

    /// The name of an app; its identifier where it is not in the catalog.
    pub fn label(&self, bundle_id: &BundleId) -> (r: String)
        ensures
            r@ == match first_for(self.catalog.applications@, bundle_id.key(), false, 0) {
                Some(entry) => entry.name@,
                None => bundle_id.written@,
            },
    {
        match self.find(bundle_id.normalized.as_str(), false) {
            Some(i) => self.catalog.applications[i].name.as_str().to_owned(),
            None => bundle_id.written.as_str().to_owned(),
        }
    }

    /// Whether the sound of an app may be captured, by its normalized identifier.
    pub fn capture_enabled(&self, normalized: &str) -> (r: bool)
        ensures
            r == match first_for(
                self.catalog.applications@,
                text::lower(normalized@),
                false,
                0,
            ) {
                Some(entry) => entry.capture,
                None => false,
            },
    {
        match self.find(normalized, false) {
            Some(i) => self.catalog.applications[i].capture,
            None => false,
        }
    }

    /// All configured native meeting-app bundle ids whose output may be captured
    /// for a manually started meeting. Browsers are excluded: their whole-process
    /// scope needs an explicit choice.
    pub fn manual_capture_bundle_ids(&self) -> (r: Vec<String>)
        ensures
            text::texts(r@) == capture_ids(self.catalog.applications@),
    {
        let apps: &Vec<MeetingAppEntry> = &self.catalog.applications;
        let mut ids: Vec<String> = Vec::new();
        let mut i: usize = 0;
        assert(text::texts(ids@) =~= capture_ids(apps@.take(0)));
        while i < apps.len()
            invariant
                i <= apps@.len(),
                apps@ == self.catalog.applications@,
                text::texts(ids@) == capture_ids(apps@.take(i as int)),
            decreases apps@.len() - i,
        {
            let entry: &MeetingAppEntry = &apps[i];
            let ghost before = text::texts(ids@);
            proof {
                assert(apps@.take(i + 1).drop_last() =~= apps@.take(i as int));
                assert(apps@.take(i + 1).last() == *entry);
            }
            let meeting: bool = match entry.kind {
                MeetingAppKind::Meeting => true,
                MeetingAppKind::Browser => false,
            };
            if entry.capture && meeting {
                let ghost added = entry.bundle_ids@.map_values(|id: BundleId| id.written@);
                let mut j: usize = 0;
                assert(before + added.take(0) =~= before);
                while j < entry.bundle_ids.len()
                    invariant
                        j <= entry.bundle_ids@.len(),
                        added == entry.bundle_ids@.map_values(|id: BundleId| id.written@),
                        text::texts(ids@) == before + added.take(j as int),
                    decreases entry.bundle_ids@.len() - j,
                {
                    let ghost had = text::texts(ids@);
                    ids.push(entry.bundle_ids[j].written.as_str().to_owned());
                    assert(text::texts(ids@) =~= had.push(added[j as int]));
                    assert(added.take(j + 1) =~= added.take(j as int).push(added[j as int]));
                    j = j + 1;
                }
                assert(added.take(j as int) =~= added);
            }
            i = i + 1;
        }
        assert(apps@.take(i as int) =~= apps@);
        ids
    }
}

/// Two entries say the same.
pub open spec fn same_entry(a: MeetingAppEntry, b: MeetingAppEntry) -> bool {
    &&& a.name@ == b.name@
    &&& a.kind == b.kind
    &&& a.detect == b.detect
    &&& a.capture == b.capture
    &&& a.bundle_ids@.len() == b.bundle_ids@.len()
    &&& forall|i: int|
        0 <= i < a.bundle_ids@.len() ==> (#[trigger] a.bundle_ids@[i]).written@
            == b.bundle_ids@[i].written@ && a.bundle_ids@[i].normalized@
            == b.bundle_ids@[i].normalized@
}

pub open spec fn same_entries(a: Seq<MeetingAppEntry>, b: Seq<MeetingAppEntry>) -> bool {
    a.len() == b.len() && forall|i: int| 0 <= i < a.len() ==> same_entry(#[trigger] a[i], b[i])
}

fn copy_entry(entry: &MeetingAppEntry) -> (r: MeetingAppEntry)
    ensures
        same_entry(r, *entry),
{
    let mut bundle_ids: Vec<BundleId> = Vec::new();
    let mut i: usize = 0;
    while i < entry.bundle_ids.len()
        invariant
            i <= entry.bundle_ids@.len(),
            bundle_ids@.len() == i,
            forall|j: int|
                0 <= j < i ==> (#[trigger] bundle_ids@[j]).written@
                    == entry.bundle_ids@[j].written@ && bundle_ids@[j].normalized@
                    == entry.bundle_ids@[j].normalized@,
        decreases entry.bundle_ids@.len() - i,
    {
        bundle_ids.push(
            BundleId {
                written: entry.bundle_ids[i].written.as_str().to_owned(),
                normalized: entry.bundle_ids[i].normalized.as_str().to_owned(),
            },
        );
        i = i + 1;
    }
    MeetingAppEntry {
        name: entry.name.as_str().to_owned(),
        kind: entry.kind,
        bundle_ids,
        detect: entry.detect,
        capture: entry.capture,
    }
}

proof fn lemma_capture_ids(apps: Seq<MeetingAppEntry>, id: Seq<char>)
    requires
        capture_ids(apps).contains(id),
    ensures
        exists|i: int, k: int|
            0 <= i < apps.len() && 0 <= k < apps[i].bundle_ids@.len() && (
            #[trigger] apps[i].bundle_ids@[k]).written@ == id && apps[i].capture && apps[i].kind
                is Meeting,
    decreases apps.len(),
{
    if apps.len() > 0 {
        let before = capture_ids(apps.drop_last());
        let last = apps.last();
        if before.contains(id) {
            lemma_capture_ids(apps.drop_last(), id);
            let (i, k) = choose|i: int, k: int|
                0 <= i < apps.drop_last().len() && 0 <= k < apps.drop_last()[i].bundle_ids@.len()
                    && (#[trigger] apps.drop_last()[i].bundle_ids@[k]).written@ == id
                    && apps.drop_last()[i].capture && apps.drop_last()[i].kind is Meeting;
            assert(apps[i].bundle_ids@[k].written@ == id);
        } else {
            let added = last.bundle_ids@.map_values(|id: BundleId| id.written@);
            let at = capture_ids(apps).index_of(id);
            if at < before.len() {
                assert(before[at] == id);
            }
            let k = at - before.len();
            assert(added[k] == id);
            assert(apps[apps.len() - 1].bundle_ids@[k].written@ == id);
        }
    }
}

/// What is captured for a meeting that was started by hand is a meeting app whose
/// sound may be captured, never a browser.
pub proof fn browsers_are_not_captured_by_hand(apps: Seq<MeetingAppEntry>, id: Seq<char>)
    requires
        capture_ids(apps).contains(id),
    ensures
        exists|i: int, k: int|
            0 <= i < apps.len() && 0 <= k < apps[i].bundle_ids@.len() && (
            #[trigger] apps[i].bundle_ids@[k]).written@ == id && apps[i].capture && apps[i].kind
                is Meeting,
{
    lemma_capture_ids(apps, id);
}

// ---------------------------------------------------------------------------
// The file of the catalog
// ---------------------------------------------------------------------------

/// The directory of the catalog.
pub fn catalog_dir(path: &str, platform: Platform) -> (r: Result<String, String>)
    ensures
        match paths::parent_of(path@, platform is Windows) {
            Some(parent) => r matches Ok(dir) && dir@ == parent,
            None => text::fails(r, "invalid catalog path: "@ + path@),
        },
{
    match paths::parent(path, platform) {
        Some(parent) => Ok(parent),
        None => Err(text::glue("invalid catalog path: ", path)),
    }
}

fn hex_char(d: u8) -> (c: char)
    requires
        d < 16,
    ensures
        c == text::hex_digit(d as nat),
{
    if d < 10 {
        (48 + d) as char
    } else {
        (87 + d) as char
    }
}

fn hex_text(n: u128, width: u8) -> (r: String)
    ensures
        r@ == text::hex_digits(n as nat, width as nat),
    decreases width,
{
    if width == 0 {
        String::new()
    } else {
        let mut r: String = hex_text(n / 16, width - 1);
        r.push(hex_char((n % 16) as u8));
        r
    }
}

/// The name of the file that a catalog is written to before it takes its place: one
/// of its own for every `nonce`.
pub fn unique_temp_path(dir: &str, nonce: u128, platform: Platform) -> (r: String)
    ensures
        r@ == paths::join(
            dir@,
            ".meeting-apps.toml."@ + text::hex_digits(nonce as nat, 32) + ".tmp"@,
            platform is Windows,
        ),
{
    let name: String = text::glue3(".meeting-apps.toml.", hex_text(nonce, 32).as_str(), ".tmp");
    paths::joined(dir, name.as_str(), platform)
}

/// What came of putting a template in its place.
#[derive(Debug, Clone, PartialEq, Eq)]
pub enum Installation {
    Installed,
    /// A catalog was there before.
    AlreadyThere,
    Failed(String),
}

/// A template is installed where there is a catalog afterwards: one that is there
/// already is kept.
pub fn settle_installation(path: &str, installation: Installation) -> (r: Result<(), String>)
    ensures
        match installation {
            Installation::Installed | Installation::AlreadyThere => r is Ok,
            Installation::Failed(error) => text::fails(
                r,
                "install "@ + path@ + ": "@ + error@,
            ),
        },
{
    match installation {
        Installation::Installed | Installation::AlreadyThere => Ok(()),
        Installation::Failed(error) => {
            let head: String = text::glue3("install ", path, ": ");
            Err(text::glue(head.as_str(), error.as_str()))
        },
    }
}

/// Two writers never write to the same file.
pub proof fn temporary_files_differ(a: u128, b: u128)
    requires
        a != b,
    ensures
        text::hex_digits(a as nat, 32) != text::hex_digits(b as nat, 32),
{
    if text::hex_digits(a as nat, 32) == text::hex_digits(b as nat, 32) {
        text::lemma_hex_is_one_to_one(a, b);
    }
}

// ---------------------------------------------------------------------------
// Laws of the catalog
// ---------------------------------------------------------------------------

/// Applications that hold meetings are told from browsers.
pub proof fn meeting_apps_are_told_from_browsers()
    ensures
        MeetingAppKind::Meeting.class() is NativeMeeting,
        MeetingAppKind::Browser.class() is Browser,
{
}

/// A catalog that can be used has the version that is known, and each of its applications
/// a name and an identifier, none of which is empty.
pub proof fn valid_catalog_is_complete(catalog: MeetingAppCatalog, i: int, k: int)
    requires
        catalog_error(catalog) is None,
        0 <= i < catalog.applications@.len(),
    ensures
        catalog.version == 1,
        text::trim(catalog.applications@[i].name@).len() > 0,
        catalog.applications@[i].bundle_ids@.len() > 0,
        0 <= k < catalog.applications@[i].bundle_ids@.len()
            ==> catalog.applications@[i].bundle_ids@[k].normalized@.len() > 0,
{
    lemma_complete_apps(catalog.applications@, 0, Seq::empty(), i, k);
}

proof fn lemma_complete_apps(
    apps: Seq<MeetingAppEntry>,
    at: int,
    seen: Seq<Seq<char>>,
    i: int,
    k: int,
)
    requires
        check_apps(apps, at, seen) is Ok,
        0 <= at <= i < apps.len(),
    ensures
        text::trim(apps[i].name@).len() > 0,
        apps[i].bundle_ids@.len() > 0,
        0 <= k < apps[i].bundle_ids@.len() ==> apps[i].bundle_ids@[k].normalized@.len() > 0,
    decreases apps.len() - at,
{
    let keys = check_ids(apps[at].name@, apps[at].bundle_ids@, 0, seen);
    if at < i {
        lemma_complete_apps(apps, at + 1, keys->Ok_0, i, k);
    } else {
        lemma_complete_ids(apps[at].name@, apps[at].bundle_ids@, 0, seen, k);
    }
}

proof fn lemma_complete_ids(
    name: Seq<char>,
    ids: Seq<BundleId>,
    at: int,
    seen: Seq<Seq<char>>,
    k: int,
)
    requires
        check_ids(name, ids, at, seen) is Ok,
        0 <= at,
    ensures
        at <= k < ids.len() ==> ids[k].normalized@.len() > 0,
    decreases ids.len() - at,
{
    if at < ids.len() {
        lemma_complete_ids(name, ids, at + 1, seen.push(ids[at].key()), k);
    }
}

/// A catalog is refused for its version, for an application without a name or without an
/// identifier, and for an empty identifier; one without applications is not.
pub proof fn catalog_is_refused_for_a_reason(catalog: MeetingAppCatalog)
    ensures
        catalog.version != 1 ==> catalog_error(catalog) == Some(
            "unsupported meeting-app catalog version "@ + text::decimal(catalog.version as nat)
                + "; expected "@ + text::decimal(1),
        ),
        catalog.version == 1 && catalog.applications@.len() == 0 ==> catalog_error(catalog) is None,
        catalog.version == 1 && catalog.applications@.len() > 0 && text::trim(
            catalog.applications@[0].name@,
        ).len() == 0 ==> catalog_error(catalog) == Some(
            "application "@ + text::decimal(1) + " has an empty name"@,
        ),
        catalog.version == 1 && catalog.applications@.len() > 0 && text::trim(
            catalog.applications@[0].name@,
        ).len() > 0 && catalog.applications@[0].bundle_ids@.len() == 0 ==> catalog_error(catalog)
            == Some(
            "application '"@ + catalog.applications@[0].name@
                + "' must contain at least one bundle id"@,
        ),
{
}

/// The first entry that names a key is found, whatever stands behind it; one that is not
/// to be detected is passed over where that is asked.
pub proof fn first_entry_is_found(
    apps: Seq<MeetingAppEntry>,
    key: Seq<char>,
    require_detect: bool,
    at: int,
    i: int,
    k: int,
)
    requires
        0 <= at <= i < apps.len(),
        0 <= k < apps[i].bundle_ids@.len(),
        text::lower(apps[i].bundle_ids@[k].normalized@) == key,
        require_detect ==> apps[i].detect,
        forall|j: int|
            at <= j < i ==> !names_key(#[trigger] apps[j], key) || (require_detect
                && !apps[j].detect),
    ensures
        first_for(apps, key, require_detect, at) == Some(apps[i]),
    decreases i - at,
{
    assert(apps[i].bundle_ids@[k].key() == key);
    if at < i {
        assert(!is_for(apps[at], key, require_detect));
        first_entry_is_found(apps, key, require_detect, at + 1, i, k);
    }
}

/// An entry is never found for a key that no entry names.
pub proof fn unknown_key_is_not_found(
    apps: Seq<MeetingAppEntry>,
    key: Seq<char>,
    require_detect: bool,
    at: int,
)
    requires
        0 <= at,
        forall|j: int| 0 <= j < apps.len() ==> !names_key(#[trigger] apps[j], key),
    ensures
        first_for(apps, key, require_detect, at) is None,
    decreases apps.len() - at,
{
    if at < apps.len() {
        assert(!names_key(apps[at], key));
        unknown_key_is_not_found(apps, key, require_detect, at + 1);
    }
}

/// The sound of each meeting application that may be captured is, under its identifiers as
/// they are written; no other's is.
pub proof fn capturable_meetings_are_captured(
    apps: Seq<MeetingAppEntry>,
    entry: MeetingAppEntry,
    i: int,
)
    ensures
        entry.capture && entry.kind is Meeting ==> capture_ids(apps.push(entry)).len()
            == capture_ids(apps).len() + entry.bundle_ids@.len(),
        entry.capture && entry.kind is Meeting && 0 <= i < entry.bundle_ids@.len() ==> capture_ids(
            apps.push(entry),
        )[capture_ids(apps).len() + i] == entry.bundle_ids@[i].written@,
        !entry.capture || entry.kind is Browser ==> capture_ids(apps.push(entry)) == capture_ids(
            apps,
        ),
        capture_ids(Seq::empty()).len() == 0,
{
    assert(apps.push(entry).drop_last() =~= apps);
}

/// Entries that say the same agree in everything.
pub proof fn same_entries_agree(a: MeetingAppEntry, b: MeetingAppEntry, i: int)
    requires
        same_entry(a, b),
    ensures
        a.name@ == b.name@,
        a.kind == b.kind,
        a.detect == b.detect,
        a.capture == b.capture,
        a.bundle_ids@.len() == b.bundle_ids@.len(),
        0 <= i < a.bundle_ids@.len() ==> a.bundle_ids@[i].written@ == b.bundle_ids@[i].written@
            && a.bundle_ids@[i].normalized@ == b.bundle_ids@[i].normalized@,
{
}

/// An identifier is refused where it is empty, where it is this app's own, and where it
/// stands in the catalog already.
pub proof fn identifier_is_refused_for_a_reason(
    name: Seq<char>,
    ids: Seq<BundleId>,
    at: int,
    seen: Seq<Seq<char>>,
)
    requires
        0 <= at < ids.len(),
    ensures
        ids[at].normalized@.len() == 0 ==> check_ids(name, ids, at, seen) == Err::<
            Seq<Seq<char>>,
            Seq<char>,
        >("application '"@ + name + "' has an empty bundle id"@),
        ids[at].normalized@.len() > 0 && text::occurs(
            text::lower(ids[at].normalized@),
            "com.lumenopen.asr"@,
        ) ==> check_ids(name, ids, at, seen) == Err::<Seq<Seq<char>>, Seq<char>>(
            "Lumen itself cannot be a meeting capture target"@,
        ),
        ids[at].normalized@.len() > 0 && !text::occurs(
            text::lower(ids[at].normalized@),
            "com.lumenopen.asr"@,
        ) && seen.contains(text::lower(ids[at].normalized@)) ==> check_ids(name, ids, at, seen)
            == Err::<Seq<Seq<char>>, Seq<char>>(
            "bundle id '"@ + ids[at].normalized@ + "' appears more than once"@,
        ),
        ids[at].normalized@.len() > 0 && !text::occurs(
            text::lower(ids[at].normalized@),
            "com.lumenopen.asr"@,
        ) && !seen.contains(text::lower(ids[at].normalized@)) && at == ids.len() - 1 ==> check_ids(
            name,
            ids,
            at,
            seen,
        ) == Ok::<Seq<Seq<char>>, Seq<char>>(seen.push(text::lower(ids[at].normalized@))),
{
    reveal_with_fuel(check_ids, 2);
}

} // verus!
