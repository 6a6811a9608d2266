//! The directory of endpoints: decoding the fetched payload from its legacy
//! text encoding and parsing it, row by row, into named entries.
//!
//! The payload is line-delimited text; each non-empty line is tab-delimited
//! fields of which field 1 is the endpoint name, field 3 its host and field 4
//! its port, read as an unsigned 16-bit decimal number. A malformed line
//! fails the whole parse: no partial directory is ever returned.
use vstd::prelude::*;

use crate::errors::MonitorError;
use encoding::Encoding;
use crate::text::{
    copy_chars, dec_val, is_dec_u16, parse_u16, split_char, split_on,
};

verus! {

// ---------------------------------------------------------------------------
// Model
// ---------------------------------------------------------------------------

/// The mathematical value of one directory entry.
pub struct EntryModel {
    pub name: Seq<char>,
    pub host: Seq<char>,
    pub port: nat,
}

/// One row of the directory: an endpoint name, its host text and its port.
pub struct DirectoryEntry {
    pub name: Vec<char>,
    pub host: Vec<char>,
    pub port: u16,
}

impl View for DirectoryEntry {
    type V = EntryModel;

    open spec fn view(&self) -> EntryModel {
        EntryModel { name: self.name@, host: self.host@, port: self.port as nat }
    }
}

/// The entries of a sequence of rows, as mathematical values.
pub open spec fn dir_view(es: Seq<DirectoryEntry>) -> Seq<EntryModel> {
    es.map_values(|e: DirectoryEntry| e@)
}

/// The directory: the rows of one fetched payload, in payload order.
/// Names are expected unique in the payload; where a name repeats, the last
/// row wins on lookup, as `dir_map` states.
pub struct Directory {
    pub entries: Vec<DirectoryEntry>,
}

impl View for Directory {
    type V = Seq<EntryModel>;

    open spec fn view(&self) -> Seq<EntryModel> {
        dir_view(self.entries@)
    }
}

/// The mapping the rows denote: each name maps to the last row that bears it.
pub open spec fn dir_map(s: Seq<EntryModel>) -> Map<Seq<char>, EntryModel>
    decreases s.len(),
{
    if s.len() == 0 {
        Map::empty()
    } else {
        dir_map(s.drop_last()).insert(s.last().name, s.last())
    }
}

/// The last row bearing `n`, scanning from the back; `None` when no row does.
pub open spec fn lookup(s: Seq<EntryModel>, n: Seq<char>) -> Option<EntryModel>
    decreases s.len(),
{
    if s.len() == 0 {
        None
    } else if s.last().name == n {
        Some(s.last())
    } else {
        lookup(s.drop_last(), n)
    }
}

/// `lookup` and `dir_map` agree: a name is in the map's domain exactly when
/// some row bears it, and the mapped entry is the last such row.
pub proof fn lemma_lookup_is_dir_map(s: Seq<EntryModel>, n: Seq<char>)
    ensures
        dir_map(s).dom().contains(n) <==> lookup(s, n) is Some,
        lookup(s, n) is Some ==> dir_map(s)[n] == lookup(s, n).unwrap(),
    decreases s.len(),
{
    if s.len() == 0 {
    } else {
        lemma_lookup_is_dir_map(s.drop_last(), n);
    }
}

/// Every name in the directory map is the name field of the entry it maps to.
pub proof fn lemma_dir_map_names(s: Seq<EntryModel>)
    ensures
        forall|n: Seq<char>| #[trigger] dir_map(s).dom().contains(n) ==> dir_map(s)[n].name == n,
    decreases s.len(),
{
    if s.len() == 0 {
    } else {
        lemma_dir_map_names(s.drop_last());
        assert forall|n: Seq<char>| #[trigger] dir_map(s).dom().contains(n) implies dir_map(
            s,
        )[n].name == n by {
            if n != s.last().name {
                assert(dir_map(s.drop_last()).dom().contains(n));
            }
        }
    }
}

// ---------------------------------------------------------------------------
// Payload shape
// ---------------------------------------------------------------------------

/// The tab-delimited fields of one payload line.
pub open spec fn row_fields(l: Seq<char>) -> Seq<Seq<char>> {
    split_on(l, '\t')
}

/// A line parses into an entry: it has the name, host and port fields, and
/// the port field is a decimal number that fits in 16 bits.
pub open spec fn row_ok(l: Seq<char>) -> bool {
    row_fields(l).len() >= 5 && is_dec_u16(row_fields(l)[4])
}

/// The entry a well-formed line denotes.
pub open spec fn row_entry(l: Seq<char>) -> EntryModel
    recommends
        row_ok(l),
{
    EntryModel { name: row_fields(l)[1], host: row_fields(l)[3], port: dec_val(row_fields(l)[4]) }
}

/// Keeps the non-empty lines; a trailing newline of the payload thus yields
/// no spurious entry.
pub open spec fn keep_nonempty(ls: Seq<Seq<char>>) -> Seq<Seq<char>> {
    ls.filter(|l: Seq<char>| l.len() != 0)
}

/// The non-empty lines of a payload, in payload order.
pub open spec fn lines_of(s: Seq<char>) -> Seq<Seq<char>> {
    keep_nonempty(split_on(s, '\n'))
}

/// Every non-empty line of the payload parses into an entry.
pub open spec fn payload_ok(s: Seq<char>) -> bool {
    forall|j: int|
        0 <= j < split_on(s, '\n').len() && #[trigger] split_on(s, '\n')[j].len() != 0
            ==> row_ok(split_on(s, '\n')[j])
}

/// The entries the lines `ls` denote, in order.
pub open spec fn entries_of(ls: Seq<Seq<char>>) -> Seq<EntryModel> {
    ls.map_values(|l: Seq<char>| row_entry(l))
}

/// The directory a well-formed payload denotes: one entry per non-empty
/// line, in payload order.
pub open spec fn directory_of(s: Seq<char>) -> Seq<EntryModel>
    recommends
        payload_ok(s),
{
    entries_of(lines_of(s))
}

proof fn lemma_keep_nonempty_push(ls: Seq<Seq<char>>, l: Seq<char>)
    ensures
        l.len() != 0 ==> keep_nonempty(ls.push(l)) == keep_nonempty(ls).push(l),
        l.len() == 0 ==> keep_nonempty(ls.push(l)) == keep_nonempty(ls),
{
    reveal(Seq::filter);
    assert(ls.push(l).drop_last() =~= ls);
    assert(ls.push(l).last() == l);
}

// ---------------------------------------------------------------------------
// Parsing
// ---------------------------------------------------------------------------

/// Parses decoded payload text into a directory.
///
/// Succeeds exactly when every non-empty line is well-formed, and then
/// returns one entry per non-empty line, in payload order; any malformed
/// line fails the whole parse with `DecodeError`.
pub fn parse_directory(text: &Vec<char>) -> (r: Result<Directory, MonitorError>)
    ensures
        r is Ok <==> payload_ok(text@),
        r is Ok ==> r->Ok_0@ == directory_of(text@),
        r is Err ==> r->Err_0 is DecodeError,
{
    let ghost split = split_on(text@, '\n');
    let lines = split_char(text, '\n');
    let mut entries: Vec<DirectoryEntry> = Vec::new();
    let mut i: usize = 0;
    proof {
        assert(split.subrange(0, 0) =~= Seq::<Seq<char>>::empty());
        reveal(Seq::filter);
        assert(dir_view(entries@) =~= entries_of(keep_nonempty(split.subrange(0, 0))));
    }
    while i < lines.len()
        invariant
            0 <= i <= lines@.len(),
            lines@.len() == split.len(),
            forall|j: int| 0 <= j < split.len() ==> #[trigger] lines@[j]@ == split[j],
            split == split_on(text@, '\n'),
            forall|j: int|
                0 <= j < i && #[trigger] split[j].len() != 0 ==> row_ok(split[j]),
            dir_view(entries@) == entries_of(keep_nonempty(split.subrange(0, i as int))),
        decreases lines@.len() - i,
    {
        let ghost done = split.subrange(0, i as int);
        proof {
            assert(split.subrange(0, i + 1 as int) =~= done.push(split[i as int]));
            lemma_keep_nonempty_push(done, split[i as int]);
        }
        let line = &lines[i];
        if line.len() == 0 {
            i = i + 1;
            continue ;
        }
        let fields = split_char(line, '\t');
        if fields.len() < 5 {
            assert(!row_ok(split[i as int]));
            return Err(MonitorError::DecodeError);
        }
        let port = match parse_u16(&fields[4]) {
            Some(p) => p,
            None => {
                assert(!row_ok(split[i as int]));
                return Err(MonitorError::DecodeError);
            },
        };
        let entry = DirectoryEntry {
            name: copy_chars(&fields[1]),
            host: copy_chars(&fields[3]),
            port,
        };
        proof {
            assert(row_ok(split[i as int]));
            assert(entry@ == row_entry(split[i as int]));
        }
        entries.push(entry);
        proof {
            assert(dir_view(entries@) =~= dir_view(entries@.drop_last()).push(entries@.last()@));
            assert(entries_of(keep_nonempty(done).push(split[i as int])) =~= entries_of(
                keep_nonempty(done),
            ).push(row_entry(split[i as int])));
        }
        i = i + 1;
    }
    proof {
        assert(split.subrange(0, split.len() as int) =~= split);
    }
    Ok(Directory { entries })
}

// ---------------------------------------------------------------------------
// Decoding and fetching
// ---------------------------------------------------------------------------

/// The text the legacy GBK codec decodes `bytes` to, when it decodes at all.
pub uninterp spec fn gbk_of(bytes: Seq<u8>) -> Seq<char>;

/// Every byte of `b` is in the seven-bit range.
pub open spec fn all_ascii(b: Seq<u8>) -> bool {
    forall|i: int| 0 <= i < b.len() ==> #[trigger] b[i] < 0x80
}

/// The characters that seven-bit bytes stand for.
pub open spec fn ascii_chars(b: Seq<u8>) -> Seq<char> {
    b.map_values(|x: u8| x as char)
}

/// Relies on the `encoding` crate's GBK codec (`Encoding::decode` with
/// `DecoderTrap::Strict`): the strict decode is a function of the input
/// bytes alone, fails on an invalid byte sequence rather than substituting,
/// and decodes bytes below 0x80 to the identical characters.
#[verifier::external_body]
fn decode_gbk(bytes: &Vec<u8>) -> (r: Option<Vec<char>>)
    ensures
        r is Some ==> r->Some_0@ == gbk_of(bytes@),
        all_ascii(bytes@) ==> r is Some && r->Some_0@ == ascii_chars(bytes@),
{
    match encoding::all::GBK.decode(bytes.as_slice(), encoding::DecoderTrap::Strict) {
        Ok(s) => Some(s.chars().collect()),
        Err(_) => None,
    }
}

/// Decodes a fetched payload from its legacy encoding and parses it into a
/// directory. Any undecodable or malformed payload fails with `DecodeError`
/// and no partial directory; for a payload of seven-bit bytes the outcome is
/// pinned exactly by the payload's own characters.
pub fn fetch(payload: &Vec<u8>) -> (r: Result<Directory, MonitorError>)
    ensures
        r is Ok ==> payload_ok(gbk_of(payload@)) && r->Ok_0@ == directory_of(gbk_of(payload@)),
        r is Err ==> r->Err_0 is DecodeError,
        all_ascii(payload@) ==> (r is Ok <==> payload_ok(ascii_chars(payload@))),
        all_ascii(payload@) ==> gbk_of(payload@) == ascii_chars(payload@),
{
    match decode_gbk(payload) {
        Some(text) => parse_directory(&text),
        None => Err(MonitorError::DecodeError),
    }
}

/// Law: a well-formed payload yields exactly one directory entry per
/// non-empty line; a name is a key of the directory map exactly when some
/// entry bears it, and every key maps to an entry whose own name field is
/// that key.
pub proof fn lemma_directory_matches_payload(s: Seq<char>)
    requires
        payload_ok(s),
    ensures
        directory_of(s).len() == lines_of(s).len(),
        forall|n: Seq<char>|
            dir_map(directory_of(s)).dom().contains(n) <==> #[trigger] lookup(
                directory_of(s),
                n,
            ) is Some,
        forall|n: Seq<char>| #[trigger]
            dir_map(directory_of(s)).dom().contains(n) ==> dir_map(directory_of(s))[n].name == n,
{
    lemma_dir_map_names(directory_of(s));
    assert forall|n: Seq<char>|
        dir_map(directory_of(s)).dom().contains(n) <==> #[trigger] lookup(
            directory_of(s),
            n,
        ) is Some by {
        lemma_lookup_is_dir_map(directory_of(s), n);
    }
}

impl Directory {
    /// The index of the last entry bearing `name`, or `None` when no entry
    /// does — exactly as `lookup` describes.
    pub fn find(&self, name: &Vec<char>) -> (r: Option<usize>)
        ensures
            r is Some <==> lookup(self@, name@) is Some,
            r is Some ==> r.unwrap() < self.entries@.len() && self.entries@[
                r.unwrap() as int
            ]@ == lookup(self@, name@).unwrap(),
    {
        let mut j: usize = self.entries.len();
        proof {
            assert(dir_view(self.entries@).subrange(0, j as int) =~= self@);
        }
        while j > 0
            invariant
                0 <= j <= self.entries@.len(),
                lookup(self@, name@) == lookup(dir_view(self.entries@).subrange(0, j as int), name@),
            decreases j,
        {
            let ghost pre = dir_view(self.entries@).subrange(0, j as int);
            proof {
                assert(pre.drop_last() =~= dir_view(self.entries@).subrange(0, j - 1));
                assert(pre.last() == self.entries@[j - 1]@);
            }
            if crate::text::chars_eq(&self.entries[j - 1].name, name) {
                return Some(j - 1);
            }
            j = j - 1;
        }
        proof {
            assert(dir_view(self.entries@).subrange(0, 0) =~= Seq::<EntryModel>::empty());
        }
        None
    }
}

} // verus!
