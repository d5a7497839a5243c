use vstd::prelude::*;
use crate::errors::InstallError;

verus! {

/// One release as the remote catalog reports it: its version identifier
/// (shaped `v<major>.<minor>.<patch>`) and, when the release is a
/// long-term-support one, the codename string that marks it so. A missing
/// or non-string marker means the release is not long-term-support.
#[derive(Debug)]
pub struct ReleaseEntry {
    pub version: String,
    pub lts: Option<String>,
}

/// The mathematical content of one catalog entry.
pub ghost struct ReleaseEntryModel {
    pub version: Seq<char>,
    pub lts: Option<Seq<char>>,
}

impl View for ReleaseEntry {
    type V = ReleaseEntryModel;

    open spec fn view(&self) -> ReleaseEntryModel {
        ReleaseEntryModel {
            version: self.version@,
            lts: match self.lts {
                Some(s) => Some(s@),
                None => None,
            },
        }
    }
}

/// The models of a whole catalog, in index order (index 0 is the newest).
pub open spec fn models_of(entries: Seq<ReleaseEntry>) -> Seq<ReleaseEntryModel> {
    entries.map_values(|e: ReleaseEntry| e@)
}

/// What serde_json decodes a catalog body to: `None` when the bytes are not
/// a JSON array of objects each carrying a string `version` field, otherwise
/// the entries in array order, an `lts` field kept only when it is a string.
pub uninterp spec fn parsed_catalog(body: Seq<u8>) -> Option<Seq<ReleaseEntryModel>>;

/// Relies on serde_json::from_slice and serde_json::Value::get: decodes the
/// body as a JSON array of objects. Which bodies decode, and to what,
/// depends on the bytes alone.
#[verifier::external_body]
fn decode_catalog(body: &[u8]) -> (r: Option<Vec<ReleaseEntry>>)
    ensures
        match r {
            Some(entries) => parsed_catalog(body@) == Some(models_of(entries@)),
            None => parsed_catalog(body@) is None,
        },
{
    let values: Vec<serde_json::Value> = serde_json::from_slice(body).ok()?;
    let mut entries: Vec<ReleaseEntry> = Vec::new();
    for value in values {
        let version = match value.get("version") {
            Some(serde_json::Value::String(s)) => s.clone(),
            _ => return None,
        };
        let lts = match value.get("lts") {
            Some(serde_json::Value::String(s)) => Some(s.clone()),
            _ => None,
        };
        entries.push(ReleaseEntry { version, lts });
    }
    Some(entries)
}

/// Decodes a fetched catalog body into the release index, newest first.
/// Bodies that are not a JSON array of release objects are rejected as
/// `MalformedCatalog`; nothing else fails.
pub fn parse_catalog(body: &[u8]) -> (r: Result<Vec<ReleaseEntry>, InstallError>)
    ensures
        match r {
            Ok(entries) => parsed_catalog(body@) == Some(models_of(entries@)),
            Err(e) => e == InstallError::MalformedCatalog && parsed_catalog(body@) is None,
        },
{
    match decode_catalog(body) {
        Some(entries) => Ok(entries),
        None => Err(InstallError::MalformedCatalog),
    }
}

/// The version of the first entry, in index order, whose long-term-support
/// marker is present; `None` when no entry carries one.
pub open spec fn first_lts_version(entries: Seq<ReleaseEntry>) -> Option<Seq<char>>
    decreases entries.len(),
{
    if entries.len() == 0 {
        None
    } else if entries[0]@.lts is Some {
        Some(entries[0]@.version)
    } else {
        first_lts_version(entries.skip(1))
    }
}

/// The newest version in the catalog: the version of entry 0, whatever the
/// long-term-support markers say. An empty catalog is `EmptyCatalog`.
pub fn get_latest_version(entries: &Vec<ReleaseEntry>) -> (r: Result<String, InstallError>)
    ensures
        entries@.len() > 0 ==> (r matches Ok(v) && v@ == entries@[0]@.version),
        entries@.len() == 0 ==> r == Err::<String, InstallError>(InstallError::EmptyCatalog),
{
    if entries.len() > 0 {
        Ok(entries[0].version.clone())
    } else {
        Err(InstallError::EmptyCatalog)
    }
}

/// The newest long-term-support version: the version of the first entry, in
/// index order, whose marker is present. A catalog without any marked entry
/// is `NoLtsAvailable`.
pub fn get_lts_version(entries: &Vec<ReleaseEntry>) -> (r: Result<String, InstallError>)
    ensures
        match r {
            Ok(v) => first_lts_version(entries@) == Some(v@),
            Err(e) => e == InstallError::NoLtsAvailable && first_lts_version(entries@) is None,
        },
{
    let n = entries.len();
    assert(entries@.skip(0) =~= entries@);
    for i in 0..n
        invariant
            n == entries@.len(),
            first_lts_version(entries@) == first_lts_version(entries@.skip(i as int)),
            forall|j: int| 0 <= j < i ==> entries@[j]@.lts is None,
    {
        if entries[i].lts.is_some() {
            return Ok(entries[i].version.clone());
        }
        proof {
            assert(entries@.skip(i as int).skip(1) =~= entries@.skip(i + 1));
        }
    }
    assert(entries@.skip(n as int) =~= Seq::<ReleaseEntry>::empty());
    Err(InstallError::NoLtsAvailable)
}

/// Law: when entry `i` carries a long-term-support marker and no earlier
/// entry does, the catalog's long-term-support version is exactly entry
/// `i`'s version — the first marked entry in index order wins.
pub proof fn lemma_lts_is_first_marked(entries: Seq<ReleaseEntry>, i: int)
    requires
        0 <= i < entries.len(),
        entries[i]@.lts is Some,
        forall|j: int| 0 <= j < i ==> entries[j]@.lts is None,
    ensures
        first_lts_version(entries) == Some(entries[i]@.version),
    decreases i,
{
    if i > 0 {
        assert(entries[0]@.lts is None);
        assert(entries.skip(1)[i - 1] == entries[i]);
        assert forall|j: int| 0 <= j < i - 1 implies entries.skip(1)[j]@.lts is None by {
            assert(entries.skip(1)[j] == entries[j + 1]);
        }
        lemma_lts_is_first_marked(entries.skip(1), i - 1);
    }
}

/// Law: the long-term-support lookup succeeds exactly when some entry
/// carries a long-term-support marker.
pub proof fn lemma_lts_exists_iff(entries: Seq<ReleaseEntry>)
    ensures
        first_lts_version(entries) is Some <==> exists|i: int|
            0 <= i < entries.len() && entries[i]@.lts is Some,
    decreases entries.len(),
{
    if entries.len() > 0 {
        lemma_lts_exists_iff(entries.skip(1));
        if entries[0]@.lts is Some {
        } else {
            assert forall|i: int|
                0 <= i < entries.len() && entries[i]@.lts is Some implies first_lts_version(
                entries,
            ) is Some by {
                assert(i > 0);
                assert(entries.skip(1)[i - 1] == entries[i]);
            }
            if first_lts_version(entries) is Some {
                let i = choose|i: int|
                    0 <= i < entries.skip(1).len() && entries.skip(1)[i]@.lts is Some;
                assert(entries.skip(1)[i] == entries[i + 1]);
            }
        }
    }
}

} // verus!
