//! The executable-extension registry.
//!
//! The registry is derived from an environment signal that lists
//! file-name suffixes separated by semicolons. Each entry is trimmed of
//! surrounding whitespace, empty entries are discarded, and an entry
//! that does not already begin with the `.` separator gets one
//! prepended. When the signal is absent, or when nothing survives the
//! filtering, a fixed four-entry fallback set is used instead, so the
//! registry is never empty.

use vstd::prelude::*;

use crate::string_views;
use crate::opt_str_view;

verus! {

/// Whitespace, as entry trimming understands it: the Unicode
/// White_Space set, the same characters that `char::is_whitespace`
/// recognizes.
pub open spec fn is_space(c: char) -> bool {
    let u = c as u32;
    (9 <= u && u <= 13) || u == 32 || u == 0x85 || u == 0xA0 || u == 0x1680 || (0x2000 <= u && u
        <= 0x200A) || u == 0x2028 || u == 0x2029 || u == 0x202F || u == 0x205F || u == 0x3000
}

/// `s` without its leading whitespace.
pub open spec fn trim_left(s: Seq<char>) -> Seq<char>
    decreases s.len(),
{
    if s.len() > 0 && is_space(s[0]) {
        trim_left(s.drop_first())
    } else {
        s
    }
}

/// `s` without its trailing whitespace.
pub open spec fn trim_right(s: Seq<char>) -> Seq<char>
    decreases s.len(),
{
    if s.len() > 0 && is_space(s.last()) {
        trim_right(s.drop_last())
    } else {
        s
    }
}

/// `s` without its leading and trailing whitespace.
pub open spec fn trimmed(s: Seq<char>) -> Seq<char> {
    trim_right(trim_left(s))
}

/// A nonempty entry, made to begin with the `.` separator.
pub open spec fn normalized(s: Seq<char>) -> Seq<char> {
    if s.len() > 0 && s[0] == '.' {
        s
    } else {
        seq!['.'] + s
    }
}

/// The signal split at semicolons, `cur` being the part of the current
/// entry already read.
pub open spec fn split_entries(s: Seq<char>, cur: Seq<char>) -> Seq<Seq<char>>
    decreases s.len(),
{
    if s.len() == 0 {
        seq![cur]
    } else if s[0] == ';' {
        seq![cur] + split_entries(s.drop_first(), Seq::<char>::empty())
    } else {
        split_entries(s.drop_first(), cur.push(s[0]))
    }
}

/// What one raw entry contributes to the registry: nothing if it is
/// blank, otherwise its trimmed, normalized form.
pub open spec fn cleaned_one(e: Seq<char>) -> Seq<Seq<char>> {
    if trimmed(e).len() == 0 {
        Seq::<Seq<char>>::empty()
    } else {
        seq![normalized(trimmed(e))]
    }
}

/// The raw entries trimmed, the blank ones discarded, the rest
/// normalized, in order.
pub open spec fn cleaned(entries: Seq<Seq<char>>) -> Seq<Seq<char>>
    decreases entries.len(),
{
    if entries.len() == 0 {
        Seq::<Seq<char>>::empty()
    } else {
        cleaned_one(entries[0]) + cleaned(entries.drop_first())
    }
}

/// The suffixes that a present signal yields, before the empty-result
/// fallback is applied.
pub open spec fn parsed_extensions(signal: Seq<char>) -> Seq<Seq<char>> {
    cleaned(split_entries(signal, Seq::<char>::empty()))
}

/// The fixed fallback set: the platform's conventional executable
/// suffixes.
pub open spec fn default_extensions() -> Seq<Seq<char>> {
    seq![".COM"@, ".EXE"@, ".BAT"@, ".CMD"@]
}

/// The registry derived from the extension-list signal: the fallback
/// set when the signal is absent or yields nothing, otherwise the
/// parsed entries.
pub open spec fn extension_set_spec(signal: Option<Seq<char>>) -> Seq<Seq<char>> {
    match signal {
        None => default_extensions(),
        Some(v) => if parsed_extensions(v).len() == 0 {
            default_extensions()
        } else {
            parsed_extensions(v)
        },
    }
}

/// The code point of `c` with an ASCII capital letter folded to its
/// small form; folding two characters to the same code is how the
/// registry compares case-insensitively.
pub open spec fn fold_code(c: char) -> u32 {
    if 65 <= c as u32 && c as u32 <= 90 {
        ((c as u32) + 32) as u32
    } else {
        c as u32
    }
}

/// The case-folded code points of `s`.
pub open spec fn folded(s: Seq<char>) -> Seq<u32> {
    s.map_values(|c: char| fold_code(c))
}

/// Whether `a` and `b` are equal once ASCII case is folded away.
pub open spec fn matches_ignore_case(a: Seq<char>, b: Seq<char>) -> bool {
    folded(a) == folded(b)
}

/// Whether some entry of `exts` equals `e` once ASCII case is folded
/// away.
pub open spec fn set_contains_ignore_case(exts: Seq<Seq<char>>, e: Seq<char>) -> bool {
    exists|k: int| 0 <= k < exts.len() && matches_ignore_case(exts[k], e)
}

fn is_space_char(c: char) -> (r: bool)
    ensures
        r == is_space(c),
{
    let u = c as u32;
    (9 <= u && u <= 13) || u == 32 || u == 0x85 || u == 0xA0 || u == 0x1680 || (0x2000 <= u && u
        <= 0x200A) || u == 0x2028 || u == 0x2029 || u == 0x202F || u == 0x205F || u == 0x3000
}

fn fold_char(c: char) -> (r: u32)
    ensures
        r == fold_code(c),
{
    let u = c as u32;
    if 65 <= u && u <= 90 {
        u + 32
    } else {
        u
    }
}

fn eq_ignore_ascii_case(a: &str, b: &str) -> (r: bool)
    ensures
        r == matches_ignore_case(a@, b@),
{
    let na = a.unicode_len();
    let nb = b.unicode_len();
    if na != nb {
        proof {
            assert(folded(a@).len() != folded(b@).len());
        }
        return false;
    }
    let mut i: usize = 0;
    while i < na
        invariant
            na == a@.len(),
            na == b@.len(),
            i <= na,
            forall|j: int| 0 <= j < i ==> fold_code(a@[j]) == fold_code(b@[j]),
        decreases na - i,
    {
        let ca = a.get_char(i);
        let cb = b.get_char(i);
        if fold_char(ca) != fold_char(cb) {
            proof {
                assert(folded(a@)[i as int] != folded(b@)[i as int]);
            }
            return false;
        }
        i = i + 1;
    }
    proof {
        assert(folded(a@) =~= folded(b@));
    }
    true
}

fn scan_trim_left(v: &str, start: usize, end: usize) -> (lo: usize)
    requires
        start <= end <= v@.len(),
    ensures
        start <= lo <= end,
        trim_left(v@.subrange(start as int, end as int)) == v@.subrange(lo as int, end as int),
{
    let mut lo: usize = start;
    loop
        invariant
            start <= lo <= end <= v@.len(),
            trim_left(v@.subrange(start as int, end as int)) == trim_left(
                v@.subrange(lo as int, end as int),
            ),
        decreases end - lo,
    {
        if lo == end {
            proof {
                assert(v@.subrange(lo as int, end as int).len() == 0);
            }
            return lo;
        }
        let c = v.get_char(lo);
        if !is_space_char(c) {
            proof {
                assert(v@.subrange(lo as int, end as int)[0] == v@[lo as int]);
            }
            return lo;
        }
        proof {
            let s = v@.subrange(lo as int, end as int);
            assert(s[0] == v@[lo as int]);
            assert(s.drop_first() =~= v@.subrange(lo as int + 1, end as int));
        }
        lo = lo + 1;
    }
}

fn scan_trim_right(v: &str, lo: usize, end: usize) -> (hi: usize)
    requires
        lo <= end <= v@.len(),
    ensures
        lo <= hi <= end,
        trim_right(v@.subrange(lo as int, end as int)) == v@.subrange(lo as int, hi as int),
{
    let mut hi: usize = end;
    loop
        invariant
            lo <= hi <= end <= v@.len(),
            trim_right(v@.subrange(lo as int, end as int)) == trim_right(
                v@.subrange(lo as int, hi as int),
            ),
        decreases hi - lo,
    {
        if hi == lo {
            proof {
                assert(v@.subrange(lo as int, hi as int).len() == 0);
            }
            return hi;
        }
        let c = v.get_char(hi - 1);
        proof {
            let s = v@.subrange(lo as int, hi as int);
            assert(s.len() == hi - lo);
            assert(s.last() == v@[hi - 1]);
        }
        if !is_space_char(c) {
            return hi;
        }
        proof {
            let s = v@.subrange(lo as int, hi as int);
            assert(s.drop_last() =~= v@.subrange(lo as int, hi - 1));
        }
        hi = hi - 1;
    }
}

/// Appends what the raw entry `v[start..end]` contributes to the
/// registry: nothing if it is blank, otherwise its trimmed, normalized
/// form.
fn push_entry(entries: &mut Vec<String>, v: &str, start: usize, end: usize)
    requires
        start <= end <= v@.len(),
    ensures
        string_views(final(entries)@) == string_views(old(entries)@) + cleaned_one(
            v@.subrange(start as int, end as int),
        ),
{
    let ghost entry = v@.subrange(start as int, end as int);
    let lo = scan_trim_left(v, start, end);
    let hi = scan_trim_right(v, lo, end);
    proof {
        assert(trimmed(entry) == v@.subrange(lo as int, hi as int));
    }
    if lo == hi {
        proof {
            assert(trimmed(entry).len() == 0);
            assert(string_views(entries@) =~= string_views(old(entries)@) + cleaned_one(entry));
        }
        return;
    }
    let piece = v.substring_char(lo, hi);
    let c0 = piece.get_char(0);
    let s = if c0 == '.' {
        piece.to_owned()
    } else {
        String::from_str(".").concat(piece)
    };
    proof {
        reveal_strlit(".");
        assert("."@ =~= seq!['.']);
        assert(s@ == normalized(trimmed(entry)));
    }
    entries.push(s);
    proof {
        assert(string_views(entries@) =~= string_views(old(entries)@) + cleaned_one(entry));
    }
}

/// Appends the fixed fallback set to an empty collection.
fn push_defaults(entries: &mut Vec<String>)
    requires
        old(entries)@.len() == 0,
    ensures
        string_views(final(entries)@) == default_extensions(),
{
    entries.push(String::from_str(".COM"));
    entries.push(String::from_str(".EXE"));
    entries.push(String::from_str(".BAT"));
    entries.push(String::from_str(".CMD"));
    proof {
        assert(string_views(entries@) =~= default_extensions());
    }
}

/// Every entry of the fallback set is a normalized suffix.
proof fn lemma_default_extensions_normalized()
    ensures
        default_extensions().len() == 4,
        forall|k: int| 0 <= k < default_extensions().len()
            ==> (#[trigger] default_extensions()[k]).len() > 0
                && default_extensions()[k][0] == '.',
{
    reveal_strlit(".COM");
    reveal_strlit(".EXE");
    reveal_strlit(".BAT");
    reveal_strlit(".CMD");
    assert forall|k: int| 0 <= k < default_extensions().len() implies (#[trigger] default_extensions()[
        k
    ]).len() > 0 && default_extensions()[k][0] == '.' by {
        if k == 0 {
            assert(default_extensions()[0] == ".COM"@);
        } else if k == 1 {
            assert(default_extensions()[1] == ".EXE"@);
        } else if k == 2 {
            assert(default_extensions()[2] == ".BAT"@);
        } else {
            assert(default_extensions()[3] == ".CMD"@);
        }
    }
}

/// Cleaning a sequence of raw entries starts with what its first entry
/// contributes.
proof fn lemma_cleaned_cons(first: Seq<char>, rest: Seq<Seq<char>>)
    ensures
        cleaned(seq![first] + rest) == cleaned_one(first) + cleaned(rest),
{
    let es = seq![first] + rest;
    assert(es.len() == 1 + rest.len());
    assert(es[0] == first);
    assert(es.drop_first() =~= rest);
    assert(cleaned(es) == cleaned_one(first) + cleaned(rest));
}

/// Every suffix that cleaning yields is nonempty and begins with the
/// `.` separator.
proof fn lemma_cleaned_normalized(entries: Seq<Seq<char>>)
    ensures
        forall|k: int| 0 <= k < cleaned(entries).len() ==> (#[trigger] cleaned(entries)[k]).len()
            > 0 && cleaned(entries)[k][0] == '.',
    decreases entries.len(),
{
    if entries.len() > 0 {
        lemma_cleaned_normalized(entries.drop_first());
        let t = trimmed(entries[0]);
        let head = cleaned_one(entries[0]);
        let rest = cleaned(entries.drop_first());
        assert(cleaned(entries) == head + rest);
        if t.len() > 0 && !(t[0] == '.') {
            assert((seq!['.'] + t)[0] == '.');
        }
        assert forall|k: int| 0 <= k < cleaned(entries).len() implies (#[trigger] cleaned(
            entries,
        )[k]).len() > 0 && cleaned(entries)[k][0] == '.' by {
            if k < head.len() {
                assert(cleaned(entries)[k] == head[k]);
                assert(head[k] == normalized(t));
            } else {
                assert(cleaned(entries)[k] == rest[k - head.len()]);
            }
        }
    }
}

proof fn lemma_trim_left_all_space(s: Seq<char>)
    requires
        forall|k: int| 0 <= k < s.len() ==> is_space(#[trigger] s[k]),
    ensures
        trim_left(s).len() == 0,
    decreases s.len(),
{
    if s.len() > 0 {
        assert(is_space(s[0]));
        assert forall|k: int| 0 <= k < s.drop_first().len() implies is_space(
            #[trigger] s.drop_first()[k],
        ) by {
            assert(s.drop_first()[k] == s[k + 1]);
        }
        lemma_trim_left_all_space(s.drop_first());
    }
}

proof fn lemma_split_all_space(s: Seq<char>, cur: Seq<char>)
    requires
        forall|k: int| 0 <= k < s.len() ==> is_space(#[trigger] s[k]),
    ensures
        split_entries(s, cur) == seq![cur + s],
    decreases s.len(),
{
    if s.len() == 0 {
        assert(cur + s =~= cur);
    } else {
        assert(is_space(s[0]));
        assert(s[0] != ';');
        assert forall|k: int| 0 <= k < s.drop_first().len() implies is_space(
            #[trigger] s.drop_first()[k],
        ) by {
            assert(s.drop_first()[k] == s[k + 1]);
        }
        lemma_split_all_space(s.drop_first(), cur.push(s[0]));
        assert(cur.push(s[0]) + s.drop_first() =~= cur + s);
    }
}

/// A present but blank signal, empty or whitespace throughout, yields
/// no entries, so the registry falls back to the fixed default set
/// rather than becoming empty.
pub proof fn lemma_blank_signal_falls_back(v: Seq<char>)
    requires
        forall|k: int| 0 <= k < v.len() ==> is_space(#[trigger] v[k]),
    ensures
        extension_set_spec(Some(v)) == default_extensions(),
{
    lemma_split_all_space(v, Seq::<char>::empty());
    assert(Seq::<char>::empty() + v =~= v);
    assert(seq![v] =~= seq![v] + Seq::<Seq<char>>::empty());
    lemma_cleaned_cons(v, Seq::<Seq<char>>::empty());
    lemma_trim_left_all_space(v);
    assert(trimmed(v).len() == 0);
    assert(parsed_extensions(v) =~= Seq::<Seq<char>>::empty());
}

/// The executable-extension registry computed from the extension-list
/// signal: the trimmed, normalized, nonempty entries of a present
/// signal, in order, or the fixed fallback set when the signal is
/// absent or yields nothing.
pub fn executable_extensions(signal: Option<&str>) -> (r: ExtensionSet)
    ensures
        r@ == extension_set_spec(opt_str_view(signal)),
        r.well_formed(),
{
    let mut entries: Vec<String> = Vec::new();
    match signal {
        None => {
            push_defaults(&mut entries);
            proof {
                lemma_default_extensions_normalized();
            }
        },
        Some(v) => {
            let n = v.unicode_len();
            let mut start: usize = 0;
            let mut j: usize = 0;
            proof {
                assert(v@.subrange(0, n as int) =~= v@);
                assert(v@.subrange(0, 0) =~= Seq::<char>::empty());
                assert(string_views(entries@) =~= Seq::<Seq<char>>::empty());
                assert(Seq::<Seq<char>>::empty() + cleaned(
                    split_entries(v@, Seq::<char>::empty()),
                ) =~= parsed_extensions(v@));
            }
            while j < n
                invariant
                    start <= j <= n,
                    n == v@.len(),
                    string_views(entries@) + cleaned(
                        split_entries(
                            v@.subrange(j as int, n as int),
                            v@.subrange(start as int, j as int),
                        ),
                    ) == parsed_extensions(v@),
                decreases n - j,
            {
                let ghost cur = v@.subrange(start as int, j as int);
                let ghost tail = v@.subrange(j as int + 1, n as int);
                let c = v.get_char(j);
                if c == ';' {
                    proof {
                        let s = v@.subrange(j as int, n as int);
                        assert(s[0] == v@[j as int]);
                        assert(s.drop_first() =~= tail);
                        assert(split_entries(s, cur) == seq![cur] + split_entries(
                            tail,
                            Seq::<char>::empty(),
                        ));
                        lemma_cleaned_cons(cur, split_entries(tail, Seq::<char>::empty()));
                    }
                    let ghost views_before = string_views(entries@);
                    push_entry(&mut entries, v, start, j);
                    start = j + 1;
                    proof {
                        let rest = cleaned(split_entries(tail, Seq::<char>::empty()));
                        assert((views_before + cleaned_one(cur)) + rest =~= views_before + (
                        cleaned_one(cur) + rest));
                        assert(v@.subrange(start as int, j as int + 1) =~= Seq::<char>::empty());
                    }
                } else {
                    proof {
                        let s = v@.subrange(j as int, n as int);
                        assert(s[0] == v@[j as int]);
                        assert(s.drop_first() =~= tail);
                        assert(cur.push(v@[j as int]) =~= v@.subrange(start as int, j as int + 1));
                        assert(split_entries(s, cur) == split_entries(
                            tail,
                            v@.subrange(start as int, j as int + 1),
                        ));
                    }
                }
                j = j + 1;
            }
            proof {
                let cur = v@.subrange(start as int, n as int);
                assert(v@.subrange(n as int, n as int).len() == 0);
                assert(split_entries(v@.subrange(n as int, n as int), cur) == seq![cur]);
                assert(seq![cur] =~= seq![cur] + Seq::<Seq<char>>::empty());
                lemma_cleaned_cons(cur, Seq::<Seq<char>>::empty());
                assert(cleaned(Seq::<Seq<char>>::empty()) =~= Seq::<Seq<char>>::empty());
                assert(cleaned_one(cur) + Seq::<Seq<char>>::empty() =~= cleaned_one(cur));
            }
            push_entry(&mut entries, v, start, n);
            proof {
                assert(string_views(entries@) == parsed_extensions(v@));
            }
            if entries.len() == 0 {
                proof {
                    assert(string_views(entries@).len() == 0);
                    assert(parsed_extensions(v@).len() == 0);
                }
                push_defaults(&mut entries);
                proof {
                    lemma_default_extensions_normalized();
                }
            } else {
                proof {
                    assert(string_views(entries@).len() == entries@.len());
                    assert(parsed_extensions(v@).len() > 0);
                    lemma_cleaned_normalized(split_entries(v@, Seq::<char>::empty()));
                }
            }
        },
    }
    ExtensionSet { entries }
}

/// The registry computation is a pure function of the signal: two
/// computations that obey its contract on the same signal yield the
/// same entries. A once-initialized cache of the result therefore
/// shows every reader the identical sequence, whichever computation
/// filled it.
pub proof fn lemma_registry_deterministic(
    r1: ExtensionSet,
    r2: ExtensionSet,
    signal: Option<Seq<char>>,
)
    requires
        r1@ == extension_set_spec(signal),
        r2@ == extension_set_spec(signal),
    ensures
        r1@ == r2@,
{
}

/// The registry of executable file-name suffixes: an ordered collection
/// of normalized entries, each nonempty and beginning with the `.`
/// separator, and never empty as a whole.
pub struct ExtensionSet {
    entries: Vec<String>,
}

impl View for ExtensionSet {
    type V = Seq<Seq<char>>;

    closed spec fn view(&self) -> Seq<Seq<char>> {
        string_views(self.entries@)
    }
}

impl ExtensionSet {
    /// The registry's invariant: at least one entry, and every entry is
    /// a normalized suffix.
    pub open spec fn well_formed(&self) -> bool {
        &&& self@.len() > 0
        &&& forall|k: int| 0 <= k < self@.len()
            ==> (#[trigger] self@[k]).len() > 0 && self@[k][0] == '.'
    }

    /// How many suffixes the registry holds.
    pub fn len(&self) -> (n: usize)
        ensures
            n == self@.len(),
    {
        self.entries.len()
    }

    /// The suffixes, in registry order.
    pub fn entries(&self) -> (r: &Vec<String>)
        ensures
            string_views(r@) == self@,
    {
        &self.entries
    }

    /// Whether `candidate` equals some entry once ASCII case is folded
    /// away.
    pub fn contains_ignore_case(&self, candidate: &str) -> (r: bool)
        ensures
            r == set_contains_ignore_case(self@, candidate@),
    {
        let n = self.entries.len();
        let mut k: usize = 0;
        while k < n
            invariant
                n == self.entries@.len(),
                k <= n,
                self@ == string_views(self.entries@),
                forall|i: int| 0 <= i < k ==> !matches_ignore_case(self@[i], candidate@),
            decreases n - k,
        {
            if eq_ignore_ascii_case(self.entries[k].as_str(), candidate) {
                proof {
                    assert(matches_ignore_case(self@[k as int], candidate@));
                }
                return true;
            }
            k = k + 1;
        }
        false
    }
}

} // verus!
