//! Process identity and transfer counters, and their stored form.
use vstd::prelude::*;
use vstd::arithmetic::power::pow;
use vstd::string::StringExecFns;
use vstd::utf8::encode_utf8;

verus! {

/// The eight bytes of `v`, least significant first.
pub open spec fn le_bytes(v: u64) -> Seq<u8> {
    Seq::new(8, |i: int| ((v as int / pow(256, i as nat)) % 256) as u8)
}

/// The stored form of the server record `(id, ul, dl)`: the byte length of
/// the id, the id in UTF-8, then the two totals, all integers as eight
/// little-endian bytes.
pub open spec fn server_record_bytes(id: Seq<char>, ul: u64, dl: u64) -> Seq<u8> {
    le_bytes(encode_utf8(id).len() as u64) + encode_utf8(id) + le_bytes(ul) + le_bytes(dl)
}

/// The record that `bincode::deserialize` reads from the bytes `b`, if any.
pub uninterp spec fn server_record_of(b: Seq<u8>) -> Option<(Seq<char>, u64, u64)>;

/// Relies on `bincode::serialize` with no size limit and little-endian
/// integers: a string is written as its byte length (`u64`) and its UTF-8
/// bytes, each `u64` as eight bytes, and writing them into a growable
/// buffer cannot fail.
#[verifier::external_body]
fn encode_record(id: &String, ul: u64, dl: u64) -> (r: Option<Vec<u8>>)
    ensures
        r is Some,
        r matches Some(b) ==> b@ == server_record_bytes(id@, ul, dl),
{
    bincode::serialize(&(id, ul, dl), bincode::Infinite).ok()
}

/// Relies on `bincode::deserialize`: what it reads depends on the bytes
/// alone, and it reads back the record that `bincode::serialize` wrote.
#[verifier::external_body]
fn decode_record(b: &Vec<u8>) -> (r: Option<(String, u64, u64)>)
    ensures
        r is None <==> server_record_of(b@) is None,
        r matches Some(t) ==> server_record_of(b@) == Some((t.0@, t.1, t.2)),
        r is None ==> forall|id: Seq<char>, ul: u64, dl: u64|
            b@ != #[trigger] server_record_bytes(id, ul, dl),
        r matches Some(t) ==> forall|id: Seq<char>, ul: u64, dl: u64|
            b@ == #[trigger] server_record_bytes(id, ul, dl) ==> t.0@ == id && t.1 == ul && t.2 == dl,
{
    bincode::deserialize::<(String, u64, u64)>(b.as_slice()).ok()
}

/// Identity of this server and the bytes it has moved.
#[derive(Clone, Debug, PartialEq, Eq)]
pub struct ServerData {
    /// Stable server id, kept across restarts.
    pub id: String,
    /// Bytes uploaded over all sessions.
    pub ul: u64,
    /// Bytes downloaded over all sessions.
    pub dl: u64,
    /// Bytes uploaded by this process.
    pub session_ul: u64,
    /// Bytes downloaded by this process.
    pub session_dl: u64,
}

/// `a + b`, or `u64::MAX` where the sum does not fit.
pub open spec fn sat_add(a: u64, b: u64) -> u64 {
    if a + b > u64::MAX { u64::MAX } else { (a + b) as u64 }
}

impl ServerData {
    /// Totals over all sessions are never below this session's totals.
    pub open spec fn wf(&self) -> bool {
        self.ul >= self.session_ul && self.dl >= self.session_dl
    }

    /// A fresh record whose id is `version`, a dash, and `suffix` (the
    /// random part of the id).
    pub fn new(version: &str, suffix: &str) -> (r: ServerData)
        ensures
            r.wf(),
            r.id@ == version@ + seq!['-'] + suffix@,
            r.ul == 0 && r.dl == 0 && r.session_ul == 0 && r.session_dl == 0,
    {
        let mut id = version.to_owned();
        id.append("-");
        proof { reveal_strlit("-"); }
        id.append(suffix);
        ServerData { id, ul: 0, dl: 0, session_ul: 0, session_dl: 0 }
    }

    /// Adds the bytes moved during one accounting interval to the totals
    /// and to this session's totals; a total that would overflow stays at
    /// `u64::MAX`.
    pub fn record(&mut self, ul: u64, dl: u64)
        requires
            old(self).wf(),
        ensures
            final(self).wf(),
            final(self).id == old(self).id,
            final(self).ul == sat_add(old(self).ul, ul),
            final(self).dl == sat_add(old(self).dl, dl),
            final(self).session_ul == sat_add(old(self).session_ul, ul),
            final(self).session_dl == sat_add(old(self).session_dl, dl),
            final(self).session_ul >= old(self).session_ul,
            final(self).session_dl >= old(self).session_dl,
    {
        self.ul = self.ul.saturating_add(ul);
        self.dl = self.dl.saturating_add(dl);
        self.session_ul = self.session_ul.saturating_add(ul);
        self.session_dl = self.session_dl.saturating_add(dl);
    }

    /// The stored form of the record: id and the two totals. This
    /// session's totals are not stored.
    pub fn to_bytes(&self) -> (r: Option<Vec<u8>>)
        ensures
            r is Some,
            r matches Some(b) ==> b@ == server_record_bytes(self.id@, self.ul, self.dl),
    {
        encode_record(&self.id, self.ul, self.dl)
    }

    /// Reads a stored record back; this session's totals start at zero.
    /// Bytes written by `to_bytes` give back the id and totals they hold.
    pub fn from_bytes(b: &Vec<u8>) -> (r: Option<ServerData>)
        ensures
            r is None <==> server_record_of(b@) is None,
            r matches Some(d) ==> d.wf() && d.session_ul == 0 && d.session_dl == 0
                && server_record_of(b@) == Some((d.id@, d.ul, d.dl)),
            forall|id: Seq<char>, ul: u64, dl: u64|
                b@ == #[trigger] server_record_bytes(id, ul, dl) ==> (r matches Some(d) && d.id@
                    == id && d.ul == ul && d.dl == dl),
    {
        match decode_record(b) {
            Some(t) => Some(ServerData { id: t.0, ul: t.1, dl: t.2, session_ul: 0, session_dl: 0 }),
            None => None,
        }
    }

    /// The record to start with: the stored one where it can be read,
    /// else `fresh` (nothing stored, or bytes that do not decode).
    pub fn restore_or(stored: Option<&Vec<u8>>, fresh: ServerData) -> (r: ServerData)
        requires
            fresh.wf(),
        ensures
            r.wf(),
            match stored {
                Some(b) => match server_record_of(b@) {
                    Some(t) => r.id@ == t.0 && r.ul == t.1 && r.dl == t.2 && r.session_ul == 0
                        && r.session_dl == 0,
                    None => r == fresh,
                },
                None => r == fresh,
            },
            forall|id: Seq<char>, ul: u64, dl: u64|
                stored matches Some(b) && b@ == #[trigger] server_record_bytes(id, ul, dl) ==> (
                r.id@ == id && r.ul == ul && r.dl == dl && r.session_ul == 0 && r.session_dl == 0),
    {
        match stored {
            Some(b) => match ServerData::from_bytes(b) {
                Some(d) => d,
                None => fresh,
            },
            None => fresh,
        }
    }
}

} // verus!
