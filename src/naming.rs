//! Output file names: rename-pattern expansion and collision renaming.
use vstd::prelude::*;
use crate::text::{
    decimal, decimal_string, ends_with, has_suffix, pad4, padded_decimal_string, push_decimal,
    opt_view, replace_all, replaced,
};

verus! {

/// The pattern after substituting every supported token, in the fixed order
/// basename, ext, timestamp, padded index, plain index.
pub open spec fn expanded(
    pattern: Seq<char>,
    base: Seq<char>,
    ext: Seq<char>,
    index: nat,
    timestamp: Seq<char>,
) -> Seq<char> {
    let a = replaced(pattern, "{basename}"@, base);
    let b = replaced(a, "{ext}"@, ext);
    let c = replaced(b, "{YYYYMMDD_HHmmss}"@, timestamp);
    let d = replaced(c, "{index_0001}"@, pad4(decimal(index)));
    replaced(d, "{index}"@, decimal(index))
}

/// `name` unchanged when it already ends with `.{ext}`, else with `.{ext}` appended.
pub open spec fn with_extension(name: Seq<char>, ext: Seq<char>) -> Seq<char> {
    if has_suffix(name, seq!['.'] + ext) {
        name
    } else {
        name + seq!['.'] + ext
    }
}

/// The file name that a rename pattern yields.
pub open spec fn pattern_name(
    pattern: Seq<char>,
    base: Seq<char>,
    ext: Seq<char>,
    index: nat,
    timestamp: Seq<char>,
) -> Seq<char> {
    with_extension(expanded(pattern, base, ext, index, timestamp), ext)
}

/// The file name used for a still image when no pattern is given.
pub open spec fn converted_name(base: Seq<char>, ext: Seq<char>) -> Seq<char> {
    base + "_converted."@ + ext
}

/// The file name used for an animation when no pattern is given.
pub open spec fn animated_name(base: Seq<char>) -> Seq<char> {
    base + "_animated.gif"@
}

/// The file name for a still image: the pattern's expansion, or the default.
pub open spec fn still_name(
    pattern: Option<Seq<char>>,
    base: Seq<char>,
    ext: Seq<char>,
    index: nat,
    timestamp: Seq<char>,
) -> Seq<char> {
    match pattern {
        Some(p) => pattern_name(p, base, ext, index, timestamp),
        None => converted_name(base, ext),
    }
}

/// The file name for an animation: the pattern's expansion (index 1), or the default.
pub open spec fn gif_name(pattern: Option<Seq<char>>, base: Seq<char>, timestamp: Seq<char>) -> Seq<char> {
    match pattern {
        Some(p) => pattern_name(p, base, "gif"@, 1, timestamp),
        None => animated_name(base),
    }
}

/// Expands the tokens `{basename}`, `{ext}`, `{YYYYMMDD_HHmmss}`,
/// `{index_0001}` and `{index}` in `pattern`, and makes sure the result ends
/// with `.{ext}`.
pub fn apply_pattern(pattern: &str, base: &str, ext: &str, index: usize, timestamp: &str) -> (r: String)
    ensures
        r@ == pattern_name(pattern@, base@, ext@, index as nat, timestamp@),
{
    proof {
        reveal_strlit("{basename}");
        reveal_strlit("{ext}");
        reveal_strlit("{YYYYMMDD_HHmmss}");
        reveal_strlit("{index_0001}");
        reveal_strlit("{index}");
        reveal_strlit(".");
    }
    let a = replace_all(pattern, "{basename}", base);
    let b = replace_all(a.as_str(), "{ext}", ext);
    let c = replace_all(b.as_str(), "{YYYYMMDD_HHmmss}", timestamp);
    let padded = padded_decimal_string(index as u64);
    let d = replace_all(c.as_str(), "{index_0001}", padded.as_str());
    let plain = decimal_string(index as u64);
    let formatted = replace_all(d.as_str(), "{index}", plain.as_str());
    let mut suffix = String::from_str(".");
    suffix.append(ext);
    assert(suffix@ =~= seq!['.'] + ext@);
    if ends_with(formatted.as_str(), suffix.as_str()) {
        formatted
    } else {
        let mut out = formatted;
        out.append(suffix.as_str());
        assert(out@ =~= with_extension(
            expanded(pattern@, base@, ext@, index as nat, timestamp@),
            ext@,
        ));
        out
    }
}

/// The output file name of a still image: `pattern` expanded when given,
/// else `{base}_converted.{ext}`.
pub fn build_name(
    pattern: &Option<String>,
    base: &str,
    ext: &str,
    index: usize,
    timestamp: &str,
) -> (r: String)
    ensures
        r@ == still_name(opt_view(*pattern), base@, ext@, index as nat, timestamp@),
{
    match pattern {
        Some(p) => apply_pattern(p.as_str(), base, ext, index, timestamp),
        None => {
            let mut out = String::from_str(base);
            out.append("_converted.");
            out.append(ext);
            assert(out@ =~= converted_name(base@, ext@));
            out
        },
    }
}

/// The output file name of an animation: `pattern` expanded with index 1 when
/// given, else `{base}_animated.gif`.
pub fn build_gif_name(pattern: &Option<String>, base: &str, timestamp: &str) -> (r: String)
    ensures
        r@ == gif_name(opt_view(*pattern), base@, timestamp@),
{
    match pattern {
        Some(p) => apply_pattern(p.as_str(), base, "gif", 1, timestamp),
        None => {
            let mut out = String::from_str(base);
            out.append("_animated.gif");
            assert(out@ =~= animated_name(base@));
            out
        },
    }
}

/// Position of the last `'.'` in `s`, if any.
pub open spec fn last_dot(s: Seq<char>) -> Option<int>
    decreases s.len(),
{
    if s.len() == 0 {
        None
    } else if s.last() == '.' {
        Some(s.len() - 1)
    } else {
        last_dot(s.drop_last())
    }
}

/// The stem of a file name: the part before the last dot, unless that dot is
/// the first character or there is none, in which case the whole name.
pub open spec fn stem_of(name: Seq<char>) -> Seq<char> {
    match last_dot(name) {
        Some(i) if i > 0 => name.subrange(0, i),
        _ => name,
    }
}

/// The extension of a file name: the part after the last dot, with the same
/// exceptions as `stem_of`, where there is none.
pub open spec fn extension_of(name: Seq<char>) -> Option<Seq<char>> {
    match last_dot(name) {
        Some(i) if i > 0 => Some(name.subrange(i + 1, name.len() as int)),
        _ => None,
    }
}

/// The `n`-th renamed candidate `{stem}_{n}.{ext}`.
pub open spec fn candidate_name(stem: Seq<char>, ext: Seq<char>, n: nat) -> Seq<char> {
    stem + seq!['_'] + decimal(n) + seq!['.'] + ext
}

proof fn lemma_last_dot_bounds(s: Seq<char>)
    ensures
        match last_dot(s) {
            Some(i) => 0 <= i < s.len() && s[i] == '.' && forall|j: int| i < j < s.len() ==> s[j] != '.',
            None => forall|j: int| 0 <= j < s.len() ==> s[j] != '.',
        },
    decreases s.len(),
{
    if s.len() > 0 && s.last() != '.' {
        lemma_last_dot_bounds(s.drop_last());
        assert(forall|j: int| 0 <= j < s.len() - 1 ==> s.drop_last()[j] == s[j]);
    }
}

/// Finds the last dot of `s`.
fn find_last_dot(s: &str) -> (r: Option<usize>)
    ensures
        match r {
            Some(i) => last_dot(s@) == Some(i as int),
            None => last_dot(s@) is None,
        },
{
    let n = s.unicode_len();
    let mut i: usize = n;
    assert(s@.subrange(0, n as int) =~= s@);
    while i > 0
        invariant
            i <= n,
            n == s@.len(),
            last_dot(s@) == last_dot(s@.subrange(0, i as int)),
        decreases i,
    {
        let ghost pre = s@.subrange(0, i as int);
        if s.get_char(i - 1) == '.' {
            return Some(i - 1);
        }
        assert(pre.drop_last() =~= s@.subrange(0, i - 1));
        i -= 1;
    }
    assert(s@.subrange(0, 0) =~= Seq::<char>::empty());
    None
}

/// Renaming state after a collision was declined: the counter of the next
/// candidate to try.
pub struct CollisionSearch {
    pub stem: String,
    pub ext: String,
    pub counter: u64,
}

impl CollisionSearch {
    /// Starts the search for `file_name`: candidates keep its stem and its
    /// extension (`img` when it has none), from counter 1.
    pub fn new(file_name: &str) -> (r: CollisionSearch)
        ensures
            r.stem@ == stem_of(file_name@),
            r.ext@ == match extension_of(file_name@) {
                Some(e) => e,
                None => "img"@,
            },
            r.counter == 1,
    {
        let n = file_name.unicode_len();
        proof {
            lemma_last_dot_bounds(file_name@);
        }
        match find_last_dot(file_name) {
            Some(i) if i > 0 => {
                let stem = String::from_str(file_name.substring_char(0, i));
                let ext = String::from_str(file_name.substring_char(i + 1, n));
                CollisionSearch { stem, ext, counter: 1 }
            },
            _ => CollisionSearch {
                stem: String::from_str(file_name),
                ext: String::from_str("img"),
                counter: 1,
            },
        }
    }

    /// The name to try next.
    pub fn candidate(&self) -> (r: String)
        ensures
            r@ == candidate_name(self.stem@, self.ext@, self.counter as nat),
    {
        let mut out = self.stem.clone();
        out.append("_");
        push_decimal(&mut out, self.counter);
        out.append(".");
        out.append(self.ext.as_str());
        proof {
            reveal_strlit("_");
            reveal_strlit(".");
        }
        assert(out@ =~= candidate_name(self.stem@, self.ext@, self.counter as nat));
        out
    }

    /// Moves on after the current candidate was found taken.
    pub fn advance(&mut self)
        requires
            old(self).counter < u64::MAX,
        ensures
            final(self).stem == old(self).stem,
            final(self).ext == old(self).ext,
            final(self).counter == old(self).counter + 1,
    {
        self.counter = self.counter + 1;
    }
}

/// The collision decision for `file_name`: `None` keeps the name (it is free,
/// or the user accepted to overwrite it); otherwise the renaming search to run.
pub fn resolve_collision(file_name: &str, taken: bool, overwrite: bool) -> (r: Option<CollisionSearch>)
    ensures
        (r is None) == (!taken || overwrite),
        r matches Some(s) ==> s.stem@ == stem_of(file_name@) && s.counter == 1
            && s.ext@ == match extension_of(file_name@) {
                Some(e) => e,
                None => "img"@,
            },
{
    if taken && !overwrite {
        Some(CollisionSearch::new(file_name))
    } else {
        None
    }
}

} // verus!
