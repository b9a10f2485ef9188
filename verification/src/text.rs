//! Text helpers over the character sequences that `String` and `str` stand for.
use vstd::prelude::*;

verus! {

/// `s` with every non-overlapping occurrence of `pat` removed, scanning from the left.
///
/// This is what `str::replace(s, pat, "")` yields for a non-empty pattern.
pub open spec fn remove_all(s: Seq<char>, pat: Seq<char>) -> Seq<char>
    decreases s.len(),
{
    if pat.len() == 0 || s.len() < pat.len() {
        s
    } else if s.take(pat.len() as int) == pat {
        remove_all(s.skip(pat.len() as int), pat)
    } else {
        seq![s[0]] + remove_all(s.skip(1), pat)
    }
}

/// The elements of `parts` in order with `sep` between each two neighbours.
pub open spec fn join(parts: Seq<Seq<char>>, sep: Seq<char>) -> Seq<char>
    decreases parts.len(),
{
    if parts.len() == 0 {
        Seq::empty()
    } else if parts.len() == 1 {
        parts[0]
    } else {
        join(parts.drop_last(), sep) + sep + parts.last()
    }
}

/// Whether `s` begins with `prefix`.
pub open spec fn has_prefix(s: Seq<char>, prefix: Seq<char>) -> bool {
    prefix.len() <= s.len() && s.take(prefix.len() as int) == prefix
}

/// Whether `s` ends with `suffix`.
pub open spec fn has_suffix(s: Seq<char>, suffix: Seq<char>) -> bool {
    suffix.len() <= s.len() && s.skip(s.len() - suffix.len()) == suffix
}

/// The views of a sequence of strings.
pub open spec fn views(v: Seq<String>) -> Seq<Seq<char>> {
    v.map_values(|s: String| s@)
}

/// Appends one character to a string (std's `String::push`).
///
/// Trusted: the contract says that the string's characters after the call
/// are those before it followed by `c`, as std documents.
#[verifier::external_body]
pub(crate) fn push_char(s: &mut String, c: char)
    ensures
        final(s)@ == old(s)@.push(c),
{
    s.push(c)
}

/// The characters of `s`, in order.
pub fn chars_of(s: &str) -> (out: Vec<char>)
    ensures
        out@ == s@,
{
    let n = s.unicode_len();
    let mut out: Vec<char> = Vec::new();
    let mut i: usize = 0;
    while i < n
        invariant
            n == s@.len(),
            i <= n,
            out@ == s@.take(i as int),
        decreases n - i,
    {
        let c = s.get_char(i);
        out.push(c);
        assert(s@.take(i + 1) =~= s@.take(i as int).push(c));
        i = i + 1;
    }
    assert(s@.take(n as int) =~= s@);
    out
}

/// A string made of the characters `chars@[from..to]`.
pub fn string_from_range(chars: &Vec<char>, from: usize, to: usize) -> (out: String)
    requires
        from <= to <= chars.len(),
    ensures
        out@ == chars@.subrange(from as int, to as int),
{
    let mut out = String::new();
    let mut i: usize = from;
    while i < to
        invariant
            from <= i <= to <= chars.len(),
            out@ == chars@.subrange(from as int, i as int),
        decreases to - i,
    {
        push_char(&mut out, chars[i]);
        assert(chars@.subrange(from as int, i + 1) =~= chars@.subrange(from as int, i as int).push(
            chars@[i as int],
        ));
        i = i + 1;
    }
    out
}

/// A string made of the characters `chars`.
pub fn string_from_chars(chars: &Vec<char>) -> (out: String)
    ensures
        out@ == chars@,
{
    let out = string_from_range(chars, 0, chars.len());
    assert(chars@.subrange(0, chars.len() as int) =~= chars@);
    out
}

/// Whether `pat` occurs in `s` starting at position `at`.
pub fn occurs_at(s: &Vec<char>, pat: &Vec<char>, at: usize) -> (b: bool)
    requires
        at <= s.len(),
    ensures
        b == (at + pat.len() <= s.len() && s@.subrange(at as int, at + pat.len()) == pat@),
{
    if pat.len() > s.len() - at {
        return false;
    }
    let mut j: usize = 0;
    while j < pat.len()
        invariant
            at + pat.len() <= s.len(),
            j <= pat.len(),
            forall|k: int| 0 <= k < j ==> s@[at + k] == pat@[k],
        decreases pat.len() - j,
    {
        if s[at + j] != pat[j] {
            assert(s@.subrange(at as int, at + pat.len())[j as int] != pat@[j as int]);
            return false;
        }
        j = j + 1;
    }
    assert(s@.subrange(at as int, at + pat.len()) =~= pat@);
    true
}

/// Whether `s` begins with `prefix` (std's `str::starts_with` for a `&str` pattern).
pub fn starts_with(s: &str, prefix: &str) -> (b: bool)
    ensures
        b == has_prefix(s@, prefix@),
{
    let sc = chars_of(s);
    let pc = chars_of(prefix);
    let b = occurs_at(&sc, &pc, 0);
    proof {
        if pc.len() <= sc.len() {
            assert(s@.subrange(0, prefix@.len() as int) =~= s@.take(prefix@.len() as int));
        }
    }
    b
}

/// Whether `s` ends with `suffix` (std's `str::ends_with` for a `&str` pattern).
pub fn ends_with(s: &str, suffix: &str) -> (b: bool)
    ensures
        b == has_suffix(s@, suffix@),
{
    let sc = chars_of(s);
    let pc = chars_of(suffix);
    if pc.len() > sc.len() {
        return false;
    }
    let b = occurs_at(&sc, &pc, sc.len() - pc.len());
    proof {
        assert(s@.subrange(s@.len() - suffix@.len(), s@.len() as int) =~= s@.skip(
            s@.len() - suffix@.len(),
        ));
    }
    b
}

/// `s` followed by `t`.
pub fn concatenated(s: &str, t: &str) -> (out: String)
    ensures
        out@ == s@ + t@,
{
    let mut out = String::from_str(s);
    out.append(t);
    out
}

proof fn lemma_remove_all_step(s: Seq<char>, pat: Seq<char>, i: int)
    requires
        0 < pat.len(),
        0 <= i < s.len(),
    ensures
        i + pat.len() <= s.len() && s.subrange(i, i + pat.len()) == pat ==> remove_all(s.skip(i), pat)
            == remove_all(s.skip(i + pat.len()), pat),
        !(i + pat.len() <= s.len() && s.subrange(i, i + pat.len()) == pat) ==> remove_all(
            s.skip(i),
            pat,
        ) == seq![s[i]] + remove_all(s.skip(i + 1), pat),
{
    let t = s.skip(i);
    assert(t.skip(1) =~= s.skip(i + 1));
    if i + pat.len() <= s.len() {
        assert(t.skip(pat.len() as int) =~= s.skip(i + pat.len()));
        assert(t.take(pat.len() as int) =~= s.subrange(i, i + pat.len()));
    }
}

/// `s` with every non-overlapping occurrence of `pat` removed, scanning from the left
/// (std's `str::replace(s, pat, "")`).
pub fn remove_all_occurrences(s: &str, pat: &str) -> (out: String)
    requires
        pat@.len() > 0,
    ensures
        out@ == remove_all(s@, pat@),
{
    let sc = chars_of(s);
    let pc = chars_of(pat);
    let ghost whole = s@;
    let ghost p = pat@;
    let mut out = String::new();
    let mut i: usize = 0;
    assert(whole.skip(0) =~= whole);
    while i < sc.len()
        invariant
            sc@ == whole,
            pc@ == p,
            p.len() > 0,
            i <= sc.len(),
            out@ + remove_all(whole.skip(i as int), p) == remove_all(whole, p),
        decreases sc.len() - i,
    {
        proof {
            lemma_remove_all_step(whole, p, i as int);
        }
        if occurs_at(&sc, &pc, i) {
            i = i + pc.len();
        } else {
            let ghost before = out@;
            push_char(&mut out, sc[i]);
            assert(out@ + remove_all(whole.skip(i + 1), p) =~= before + (seq![whole[i as int]]
                + remove_all(whole.skip(i + 1), p)));
            i = i + 1;
        }
    }
    assert(whole.skip(sc.len() as int) =~= Seq::<char>::empty());
    assert(out@ + remove_all(whole.skip(i as int), p) =~= out@);
    out
}

/// The strings of `parts` joined with `sep` between each two neighbours (std's `join`).
pub fn join_strings(parts: &Vec<String>, sep: &str) -> (out: String)
    ensures
        out@ == join(views(parts@), sep@),
{
    let mut out = String::new();
    let mut i: usize = 0;
    while i < parts.len()
        invariant
            i <= parts.len(),
            out@ == join(views(parts@).take(i as int), sep@),
        decreases parts.len() - i,
    {
        let ghost before = views(parts@).take(i as int);
        if i > 0 {
            out.append(sep);
        }
        out.append(parts[i].as_str());
        proof {
            let now = views(parts@).take(i + 1);
            assert(now.drop_last() =~= before);
            assert(now.last() == parts@[i as int]@);
            if i == 0 {
                assert(out@ =~= now[0]);
            }
        }
        i = i + 1;
    }
    assert(views(parts@).take(parts.len() as int) =~= views(parts@));
    out
}


/// The end of the line of `s` that starts at `from`: the position of the next
/// line break at or after `from`, or the end of `s`.
pub open spec fn line_end(s: Seq<char>, from: int) -> int
    decreases s.len() - from,
{
    if from < 0 || from >= s.len() {
        s.len() as int
    } else if s[from] == '\n' {
        from
    } else {
        line_end(s, from + 1)
    }
}

proof fn lemma_line_end_bounds(s: Seq<char>, from: int)
    requires
        0 <= from <= s.len(),
    ensures
        from <= line_end(s, from) <= s.len(),
        line_end(s, from) < s.len() ==> s[line_end(s, from)] == '\n',
        forall|k: int| from <= k < line_end(s, from) ==> s[k] != '\n',
    decreases s.len() - from,
{
    if from < s.len() && s[from] != '\n' {
        lemma_line_end_bounds(s, from + 1);
    }
}

/// The first two lines of a text: the text up to its first line break, and,
/// if it has one, what follows it up to the next line break or the end.
pub open spec fn first_two_lines(s: Seq<char>) -> (Seq<char>, Option<Seq<char>>) {
    let e = line_end(s, 0);
    if e < s.len() {
        (s.subrange(0, e), Some(s.subrange(e + 1, line_end(s, e + 1))))
    } else {
        (s, None)
    }
}

fn find_line_end(c: &Vec<char>, from: usize) -> (e: usize)
    requires
        from <= c.len(),
    ensures
        e == line_end(c@, from as int),
{
    let mut i = from;
    while i < c.len()
        invariant
            from <= i <= c.len(),
            line_end(c@, i as int) == line_end(c@, from as int),
        decreases c.len() - i,
    {
        if c[i] == '\n' {
            return i;
        }
        i = i + 1;
    }
    i
}

/// The first two lines of `s` (what `split('\n')` yields first and second,
/// the second only where `s` holds a line break).
pub fn split_first_two_lines(s: &str) -> (r: (String, Option<String>))
    ensures
        r.0@ == first_two_lines(s@).0,
        match r.1 {
            Some(t) => first_two_lines(s@).1 == Some(t@),
            None => first_two_lines(s@).1 is None,
        },
{
    let c = chars_of(s);
    let e = find_line_end(&c, 0);
    proof {
        lemma_line_end_bounds(s@, 0);
    }
    if e < c.len() {
        let e2 = find_line_end(&c, e + 1);
        proof {
            lemma_line_end_bounds(s@, e + 1);
        }
        (string_from_range(&c, 0, e), Some(string_from_range(&c, e + 1, e2)))
    } else {
        (String::from_str(s), None)
    }
}

/// Text in which `pat` does not occur is left as it is.
pub proof fn law_nothing_to_remove(s: Seq<char>, pat: Seq<char>)
    requires
        forall|i: int|
            0 <= i && i + pat.len() <= s.len() ==> #[trigger] s.subrange(i, i + pat.len()) != pat,
    ensures
        remove_all(s, pat) == s,
    decreases s.len(),
{
    if pat.len() > 0 && s.len() >= pat.len() {
        assert(s.take(pat.len() as int) =~= s.subrange(0, 0int + pat.len()));
        let t = s.skip(1);
        assert forall|i: int| 0 <= i && i + pat.len() <= t.len() implies #[trigger] t.subrange(i, i + pat.len()) != pat by {
            assert(t.subrange(i, i + pat.len()) =~= s.subrange(i + 1, (i + 1) + pat.len()));
        }
        law_nothing_to_remove(t, pat);
        assert(seq![s[0]] + t =~= s);
    }
}

/// An occurrence of a non-empty `pat` at the start of the text is removed
/// and the rest is treated on its own.
pub proof fn law_leading_occurrence_removed(pat: Seq<char>, s: Seq<char>)
    requires
        pat.len() > 0,
    ensures
        remove_all(pat + s, pat) == remove_all(s, pat),
{
    assert((pat + s).take(pat.len() as int) =~= pat);
    assert((pat + s).skip(pat.len() as int) =~= s);
}

/// Joining two non-empty lists is joining each and putting the separator
/// between the two results; a single string joins to itself.
pub proof fn law_join_splits(first: Seq<Seq<char>>, second: Seq<Seq<char>>, sep: Seq<char>)
    requires
        first.len() > 0,
        second.len() > 0,
    ensures
        join(first + second, sep) == join(first, sep) + sep + join(second, sep),
        join(seq![first[0]], sep) == first[0],
    decreases second.len(),
{
    if second.len() == 1 {
        assert((first + second).drop_last() =~= first);
        assert((first + second).last() == second[0]);
    } else {
        law_join_splits(first, second.drop_last(), sep);
        assert((first + second).drop_last() =~= first + second.drop_last());
        assert((first + second).last() == second.last());
        assert(join(first, sep) + sep + join(second.drop_last(), sep) + sep + second.last()
            =~= join(first, sep) + sep + (join(second.drop_last(), sep) + sep + second.last()));
    }
}

/// The first of the two lines holds no line break and starts the text; the
/// second, present exactly when the text holds a line break, holds none
/// either, follows the first break, and ends at the next break or the end.
pub proof fn law_first_two_lines(s: Seq<char>)
    ensures
        ({
            let (first, second) = first_two_lines(s);
            &&& forall|k: int| 0 <= k < first.len() ==> first[k] != '\n'
            &&& s.take(first.len() as int) == first
            &&& (second is Some <==> exists|k: int| 0 <= k < s.len() && s[k] == '\n')
            &&& (second matches Some(t) ==> {
                &&& s[first.len() as int] == '\n'
                &&& forall|k: int| 0 <= k < t.len() ==> t[k] != '\n'
                &&& s.subrange(first.len() + 1int, first.len() + 1int + t.len()) == t
                &&& (first.len() + 1 + t.len() == s.len() || s[first.len() + 1int + t.len()] == '\n')
            })
        }),
{
    lemma_line_end_bounds(s, 0);
    let e = line_end(s, 0);
    if e < s.len() {
        lemma_line_end_bounds(s, e + 1);
        assert(s.take(e) =~= s.subrange(0, e));
    } else {
        assert(s.take(s.len() as int) =~= s);
    }
}
} // verus!
