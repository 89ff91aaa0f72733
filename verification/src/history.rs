//! The transcription history: its file layout and the record-keeping rules.
//!
//! Reading and writing the store is the host shell's work; the rules — where
//! the files live, how records are capped, which records a deletion removes,
//! how a record's text file is named and laid out — are computed and
//! verified here.

use vstd::prelude::*;
use vstd::string::StringExecFns;
use crate::transcription::TranscriptionEntry;
use crate::strutil::{chars_of, trim, spec_trim};

verus! {

/// Most records the history keeps; older records fall off the end.
pub const MAX_HISTORY_ENTRIES: usize = 50;

/// Relies on char::is_alphanumeric: whether the character is alphabetic or
/// numeric by the Unicode tables; the result depends on the character alone.
pub uninterp spec fn spec_is_alphanumeric(c: char) -> bool;

pub assume_specification[ char::is_alphanumeric ](c: char) -> (r: bool)
    ensures
        r == spec_is_alphanumeric(c),
;

/// Paths of the on-disk history: the record index and the directory of
/// per-record text files.
pub struct HistoryManager {
    history_file: String,
    transcriptions_dir: String,
}

impl HistoryManager {
    /// The path of the record index.
    pub closed spec fn spec_history_file(&self) -> Seq<char> {
        self.history_file@
    }

    /// The path of the per-record text files.
    pub closed spec fn spec_transcriptions_dir(&self) -> Seq<char> {
        self.transcriptions_dir@
    }

    /// Lay the history out under the given data directory.
    pub fn new(data_dir: &str) -> (r: HistoryManager)
        ensures
            r.spec_history_file() == data_dir@ + "/history.json"@,
            r.spec_transcriptions_dir() == data_dir@ + "/transcriptions"@,
    {
        HistoryManager {
            history_file: String::from_str(data_dir).concat("/history.json"),
            transcriptions_dir: String::from_str(data_dir).concat("/transcriptions"),
        }
    }

    /// The path of the record index.
    pub fn history_file(&self) -> (r: &String)
        ensures
            r@ == self.spec_history_file(),
    {
        &self.history_file
    }

    /// The directory holding the per-record text files.
    pub fn transcriptions_dir(&self) -> (r: &String)
        ensures
            r@ == self.spec_transcriptions_dir(),
    {
        &self.transcriptions_dir
    }
}

/// Put a new record at the front of the history and cap the length: the
/// record becomes the first element, the previous records follow in order,
/// and anything beyond the cap falls off.
pub fn insert_entry(history: &mut Vec<TranscriptionEntry>, entry: TranscriptionEntry)
    ensures
        final(history)@.len() == if old(history)@.len() + 1 <= MAX_HISTORY_ENTRIES {
            old(history)@.len() + 1int
        } else {
            MAX_HISTORY_ENTRIES as int
        },
        final(history)@[0] == entry,
        forall|i: int|
            1 <= i < final(history)@.len() ==> final(history)@[i] == old(history)@[i - 1],
{
    history.insert(0, entry);
    if history.len() > MAX_HISTORY_ENTRIES {
        history.truncate(MAX_HISTORY_ENTRIES);
    }
}

/// Whether two strings hold the same characters.
pub fn str_eq(a: &str, b: &str) -> (r: bool)
    ensures
        r == (a@ == b@),
{
    let av = chars_of(a);
    let bv = chars_of(b);
    if av.len() != bv.len() {
        proof {
            assert(a@.len() != b@.len());
        }
        return false;
    }
    let mut i: usize = 0;
    while i < av.len()
        invariant
            i <= av@.len(),
            av@ == a@,
            bv@ == b@,
            av@.len() == bv@.len(),
            forall|k: int| 0 <= k < i ==> av@[k] == bv@[k],
        decreases av@.len() - i,
    {
        if av[i] != bv[i] {
            return false;
        }
        i += 1;
    }
    proof {
        assert(a@ =~= b@);
    }
    true
}

/// The first record with the given identifier, if one exists.
pub fn find_entry(history: &Vec<TranscriptionEntry>, id: &str) -> (r: Option<usize>)
    ensures
        match r {
            Some(i) => i < history@.len() && history@[i as int].id@ == id@ && forall|k: int|
                0 <= k < i ==> history@[k].id@ != id@,
            None => forall|k: int| 0 <= k < history@.len() ==> history@[k].id@ != id@,
        },
{
    let mut i: usize = 0;
    while i < history.len()
        invariant
            i <= history@.len(),
            forall|k: int| 0 <= k < i ==> history@[k].id@ != id@,
        decreases history@.len() - i,
    {
        if str_eq(history[i].id.as_str(), id) {
            return Some(i);
        }
        i += 1;
    }
    None
}

/// A character kept when a source name is turned into a file name.
pub open spec fn spec_keep_char(c: char) -> bool {
    spec_is_alphanumeric(c) || c == ' ' || c == '-' || c == '_'
}

/// The kept characters of a source name, up to a budget of `k`.
pub open spec fn spec_cleaned(s: Seq<char>, k: int) -> Seq<char>
    decreases s.len(),
{
    if s.len() == 0 || k <= 0 {
        Seq::<char>::empty()
    } else if spec_keep_char(s[0]) {
        seq![s[0]] + spec_cleaned(s.skip(1), k - 1)
    } else {
        spec_cleaned(s.skip(1), k)
    }
}

/// Spaces replaced by underscores.
pub open spec fn spec_underscored(s: Seq<char>) -> Seq<char> {
    Seq::new(s.len(), |i: int| if s[i] == ' ' { '_' } else { s[i] })
}

/// The file name a record's text is stored under: the record identifier, an
/// underscore, and the source name reduced to its first fifty kept
/// characters — letters, digits, spaces, hyphens and underscores — trimmed
/// and with spaces turned into underscores; then the `.txt` suffix. Deletion
/// derives the same name, so it removes exactly the file that was written.
pub open spec fn spec_txt_filename(id: Seq<char>, source_name: Seq<char>) -> Seq<char> {
    id + "_"@ + spec_underscored(spec_trim(spec_cleaned(source_name, 50))) + ".txt"@
}

/// Derive the file name a record's text is stored under.
pub fn build_txt_filename(id: &str, source_name: &str) -> (r: String)
    ensures
        r@ == spec_txt_filename(id@, source_name@),
{
    let source = chars_of(source_name);
    let n = source.len();
    let mut kept: Vec<char> = Vec::new();
    let mut i: usize = 0;
    proof {
        assert(source@.skip(0) =~= source@);
    }
    while i < n && kept.len() < 50
        invariant
            i <= n,
            n == source@.len(),
            kept@.len() <= 50,
            kept@ + spec_cleaned(source@.skip(i as int), 50 - kept@.len()) == spec_cleaned(
                source@,
                50,
            ),
        decreases n - i,
    {
        let ghost rest = source@.skip(i as int);
        let c = source[i];
        proof {
            assert(rest[0] == source@[i as int]);
            assert(rest.skip(1) =~= source@.skip(i + 1));
        }
        if c.is_alphanumeric() || c == ' ' || c == '-' || c == '_' {
            kept.push(c);
            proof {
                assert(spec_cleaned(rest, 50 - (kept@.len() - 1)) =~= seq![rest[0]]
                    + spec_cleaned(rest.skip(1), 50 - kept@.len()));
                assert(kept@ + spec_cleaned(source@.skip(i + 1), 50 - kept@.len())
                    =~= spec_cleaned(source@, 50));
            }
        } else {
            proof {
                assert(spec_cleaned(rest, 50 - kept@.len()) == spec_cleaned(
                    rest.skip(1),
                    50 - kept@.len(),
                ));
            }
        }
        i += 1;
    }
    proof {
        if kept@.len() < 50 {
            assert(source@.skip(n as int) =~= Seq::<char>::empty());
            assert(spec_cleaned(Seq::<char>::empty(), 50 - kept@.len())
                == Seq::<char>::empty());
        } else {
            assert(spec_cleaned(source@.skip(i as int), 0) == Seq::<char>::empty());
        }
        assert(kept@ =~= spec_cleaned(source@, 50));
    }
    let trimmed = trim(&kept);
    let mut replaced: Vec<char> = Vec::new();
    let mut k: usize = 0;
    while k < trimmed.len()
        invariant
            k <= trimmed@.len(),
            replaced@ =~= spec_underscored(trimmed@).subrange(0, k as int),
        decreases trimmed@.len() - k,
    {
        let c = trimmed[k];
        if c == ' ' {
            replaced.push('_');
        } else {
            replaced.push(c);
        }
        proof {
            assert(replaced@ =~= spec_underscored(trimmed@).subrange(0, k + 1));
        }
        k += 1;
    }
    proof {
        assert(replaced@ =~= spec_underscored(trimmed@));
    }
    let mut r = String::from_str(id);
    r.push('_');
    crate::strutil::push_chars(&mut r, &replaced);
    r.append(".txt");
    proof {
        reveal_strlit("_");
        assert(r@ =~= spec_txt_filename(id@, source_name@));
    }
    r
}

/// The history records whose identifier differs from `id`, in their
/// original order.
pub open spec fn spec_without_id(s: Seq<TranscriptionEntry>, id: Seq<char>) -> Seq<
    TranscriptionEntry,
>
    decreases s.len(),
{
    if s.len() == 0 {
        s
    } else {
        let rest = spec_without_id(s.drop_last(), id);
        if s.last().id@ != id {
            rest.push(s.last())
        } else {
            rest
        }
    }
}

proof fn lemma_without_id_push(s: Seq<TranscriptionEntry>, id: Seq<char>, x: TranscriptionEntry)
    ensures
        spec_without_id(s.push(x), id) == if x.id@ != id {
            spec_without_id(s, id).push(x)
        } else {
            spec_without_id(s, id)
        },
        spec_without_id(s, id).len() <= s.len(),
    decreases s.len(),
{
    assert(s.push(x).drop_last() =~= s);
    assert(s.push(x).last() == x);
    if s.len() > 0 {
        lemma_without_id_push(s.drop_last(), id, s.last());
        assert(s.drop_last().push(s.last()) =~= s);
    }
}

/// Drop every record with the given identifier from the history, keeping the
/// others in their original order; reports whether anything was dropped.
pub fn remove_entries(history: &mut Vec<TranscriptionEntry>, id: &str) -> (removed: bool)
    ensures
        final(history)@ == spec_without_id(old(history)@, id@),
        removed == (final(history)@.len() < old(history)@.len()),
{
    let ghost orig = history@;
    let initial_len = history.len();
    let ghost mut j: int = 0;
    let mut i: usize = 0;
    proof {
        assert(spec_without_id(orig.subrange(0, 0), id@) =~= Seq::<TranscriptionEntry>::empty());
        assert(history@ =~= spec_without_id(orig.subrange(0, 0), id@) + orig.subrange(
            0,
            orig.len() as int,
        ));
    }
    while i < history.len()
        invariant
            0 <= j <= orig.len(),
            i == spec_without_id(orig.subrange(0, j), id@).len(),
            i <= history@.len(),
            history@ =~= spec_without_id(orig.subrange(0, j), id@) + orig.subrange(
                j,
                orig.len() as int,
            ),
        decreases orig.len() - j,
    {
        let ghost pre = history@;
        let ghost kj = spec_without_id(orig.subrange(0, j), id@);
        let matches_id = str_eq(history[i].id.as_str(), id);
        proof {
            assert(pre[i as int] == orig.subrange(j, orig.len() as int)[0]);
            assert(history@[i as int] == orig[j]);
            assert(matches_id == (orig[j].id@ == id@));
            assert(orig.subrange(0, j + 1) =~= orig.subrange(0, j).push(orig[j]));
            lemma_without_id_push(orig.subrange(0, j), id@, orig[j]);
        }
        if matches_id {
            let _ = history.remove(i);
            proof {
                assert(spec_without_id(orig.subrange(0, j + 1), id@) == kj);
                assert(history@ =~= pre.subrange(0, i as int) + pre.subrange(
                    i + 1,
                    pre.len() as int,
                ));
                assert(pre.subrange(0, i as int) =~= kj);
                assert(pre.subrange(i + 1, pre.len() as int) =~= orig.subrange(
                    j + 1,
                    orig.len() as int,
                ));
                assert(history@ =~= spec_without_id(orig.subrange(0, j + 1), id@) + orig.subrange(
                    j + 1,
                    orig.len() as int,
                ));
            }
        } else {
            i += 1;
            proof {
                assert(spec_without_id(orig.subrange(0, j + 1), id@) == kj.push(orig[j]));
                assert(history@ =~= kj.push(orig[j]) + orig.subrange(j + 1, orig.len() as int));
                assert(history@ =~= spec_without_id(orig.subrange(0, j + 1), id@) + orig.subrange(
                    j + 1,
                    orig.len() as int,
                ));
            }
        }
        proof {
            j = j + 1;
        }
    }
    proof {
        assert(j == orig.len());
        assert(orig.subrange(0, orig.len() as int) =~= orig);
        assert(orig.subrange(j, orig.len() as int) =~= Seq::<TranscriptionEntry>::empty());
        assert(history@ =~= spec_without_id(orig, id@));
    }
    history.len() < initial_len
}

} // verus!
