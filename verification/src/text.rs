//! Character-level text helpers used by the shader translator.
use vstd::prelude::*;

verus! {

/// The characters of `s`, one per element.
pub fn chars_of(s: &str) -> (r: Vec<char>)
    ensures
        r@ == s@,
{
    let mut out: Vec<char> = Vec::new();
    for c in it: s.chars()
        invariant
            it.seq() == s@,
            out@ == s@.take(it.index() as int),
    {
        assert(s@.take(it.index() + 1) == s@.take(it.index() as int).push(c));
        out.push(c);
    }
    assert(out@ == s@);
    out
}


/// `String::push`: appends the character `c` at the end of `s`.
#[verifier::external_body]
fn push_char(s: &mut String, c: char)
    ensures
        final(s)@ == old(s)@.push(c),
{
    s.push(c)
}

/// Whether two strings hold the same characters.
pub fn str_eq(a: &str, b: &str) -> (r: bool)
    ensures
        r == (a@ == b@),
{
    let ca = chars_of(a);
    let cb = chars_of(b);
    if ca.len() != cb.len() {
        return false;
    }
    let mut i: usize = 0;
    while i < ca.len()
        invariant
            ca@ == a@,
            cb@ == b@,
            ca@.len() == cb@.len(),
            i <= ca@.len(),
            forall|j: int| 0 <= j < i ==> ca@[j] == cb@[j],
        decreases ca@.len() - i,
    {
        if ca[i] != cb[i] {
            return false;
        }
        i += 1;
    }
    assert(ca@ == cb@);
    true
}

/// Whether the characters of `pat` occur in `cs` starting at index `i`.
fn occurs_at(cs: &Vec<char>, i: usize, pat: &Vec<char>) -> (r: bool)
    requires
        i <= cs@.len(),
    ensures
        r == (i + pat@.len() <= cs@.len() && cs@.subrange(i as int, i + pat@.len()) == pat@),
{
    if pat.len() > cs.len() - i {
        return false;
    }
    let mut k: usize = 0;
    while k < pat.len()
        invariant
            i + pat@.len() <= cs@.len(),
            cs@.len() <= usize::MAX,
            k <= pat@.len(),
            forall|j: int| 0 <= j < k ==> cs@[i + j] == pat@[j],
        decreases pat@.len() - k,
    {
        if cs[i + k] != pat[k] {
            assert(cs@.subrange(i as int, i + pat@.len())[k as int] != pat@[k as int]);
            return false;
        }
        k += 1;
    }
    assert(cs@.subrange(i as int, i + pat@.len()) == pat@);
    true
}

/// `s` with every occurrence of `pat` replaced by `with`, occurrences taken
/// left to right without overlap.
pub open spec fn replace_all(s: Seq<char>, pat: Seq<char>, with: Seq<char>) -> Seq<char>
    recommends
        pat.len() > 0,
    decreases s.len(),
{
    if pat.len() == 0 || s.len() < pat.len() {
        s
    } else if s.take(pat.len() as int) == pat {
        with + replace_all(s.skip(pat.len() as int), pat, with)
    } else {
        seq![s[0]] + replace_all(s.skip(1), pat, with)
    }
}

/// `s` with every occurrence of the non-empty pattern `pat` replaced by `with`.
pub fn replace(s: &str, pat: &str, with: &str) -> (r: String)
    requires
        pat@.len() > 0,
    ensures
        r@ == replace_all(s@, pat@, with@),
{
    let cs = chars_of(s);
    let ps = chars_of(pat);
    let mut out = String::new();
    let mut i: usize = 0;
    assert(s@.skip(0) == s@);
    while i < cs.len()
        invariant
            cs@ == s@,
            ps@ == pat@,
            pat@.len() > 0,
            i <= cs@.len(),
            out@ + replace_all(s@.skip(i as int), pat@, with@) == replace_all(s@, pat@, with@),
        decreases cs@.len() - i,
    {
        let ghost rest = s@.skip(i as int);
        if occurs_at(&cs, i, &ps) {
            assert(rest.take(pat@.len() as int) == s@.subrange(i as int, i + pat@.len()));
            assert(rest.skip(pat@.len() as int) == s@.skip(i + pat@.len()));
            out.append(with);
            i += ps.len();
        } else {
            assert(rest.skip(1) == s@.skip(i + 1));
            proof {
                if rest.len() >= pat@.len() {
                    assert(rest.take(pat@.len() as int) == s@.subrange(i as int, i + pat@.len()));
                } else {
                    assert(rest == seq![rest[0]] + rest.skip(1));
                    assert(replace_all(rest.skip(1), pat@, with@) == rest.skip(1));
                }
            }
            push_char(&mut out, cs[i]);
            i += 1;
        }
    }
    assert(s@.skip(i as int) == Seq::<char>::empty());
    out
}

/// Whether `pat` occurs in `s`.
pub open spec fn occurs_in(s: Seq<char>, pat: Seq<char>) -> bool {
    exists|i: int| 0 <= i && i + pat.len() <= s.len() && #[trigger] s.subrange(i, i + pat.len()) == pat
}

/// A text that starts with `q` after `replace_all` started with `q` before:
/// any prefix `u` shorter than `q` that starts `q` with the replaced text
/// also starts it with the text before replacing, provided that `q`'s first character
/// is not in `with` and `with`'s first character is not in `q` past its start.
proof fn lemma_starts_before_replace(
    s: Seq<char>,
    pat: Seq<char>,
    with: Seq<char>,
    q: Seq<char>,
    u: Seq<char>,
)
    requires
        pat.len() > 0,
        with.len() > 0,
        q.len() > 0,
        !with.contains(q[0]),
        !q.skip(1).contains(with[0]),
        u.len() < q.len(),
        (u + replace_all(s, pat, with)).len() >= q.len(),
        (u + replace_all(s, pat, with)).take(q.len() as int) == q,
    ensures
        (u + s).len() >= q.len(),
        (u + s).take(q.len() as int) == q,
    decreases s.len(),
{
    let r = replace_all(s, pat, with);
    if s.len() < pat.len() {
    } else if s.take(pat.len() as int) == pat {
        let k = u.len() as int;
        assert((u + r)[k] == with[0]);
        assert(q[k] == with[0]);
        if k == 0 {
            assert(with.contains(q[0]));
        } else {
            assert(q.skip(1)[k - 1] == q[k]);
            assert(q.skip(1).contains(with[0]));
        }
    } else {
        let u2 = u.push(s[0]);
        let rest = s.skip(1);
        assert(u + r == u2 + replace_all(rest, pat, with));
        assert(u + s == u2 + rest);
        if u2.len() < q.len() {
            lemma_starts_before_replace(rest, pat, with, q, u2);
        } else {
            assert((u2 + replace_all(rest, pat, with)).take(q.len() as int) == u2);
            assert((u2 + rest).take(q.len() as int) == u2);
        }
    }
}

/// Replacing `pat` by `with` makes no new occurrence of `q` (which may be
/// `pat` itself) when `q`'s first character is not in `with` and `with`'s
/// first character is not in `q` past its start.
pub proof fn lemma_no_occurrence_after_replace(
    s: Seq<char>,
    pat: Seq<char>,
    with: Seq<char>,
    q: Seq<char>,
)
    requires
        pat.len() > 0,
        with.len() > 0,
        q.len() > 0,
        !with.contains(q[0]),
        !q.skip(1).contains(with[0]),
        q == pat || !occurs_in(s, q),
    ensures
        !occurs_in(replace_all(s, pat, with), q),
    decreases s.len(),
{
    let r = replace_all(s, pat, with);
    if s.len() < pat.len() {
        if q == pat {
            assert(!occurs_in(s, q));
        }
    } else if s.take(pat.len() as int) == pat {
        let rest = s.skip(pat.len() as int);
        if q != pat {
            assert forall|i: int|
                0 <= i && i + q.len() <= rest.len() implies #[trigger] rest.subrange(i, i + q.len())
                != q by {
                assert(rest.subrange(i, i + q.len()) == s.subrange(
                    i + pat.len(),
                    i + pat.len() + q.len(),
                ));
            }
        }
        lemma_no_occurrence_after_replace(rest, pat, with, q);
        let tail = replace_all(rest, pat, with);
        assert forall|i: int| 0 <= i && i + q.len() <= r.len() implies #[trigger] r.subrange(
            i,
            i + q.len(),
        ) != q by {
            if i < with.len() {
                assert(r.subrange(i, i + q.len())[0] == with[i]);
            } else {
                assert(r.subrange(i, i + q.len()) == tail.subrange(
                    i - with.len(),
                    i - with.len() + q.len(),
                ));
            }
        }
    } else {
        let rest = s.skip(1);
        if q != pat {
            assert forall|i: int|
                0 <= i && i + q.len() <= rest.len() implies #[trigger] rest.subrange(i, i + q.len())
                != q by {
                assert(rest.subrange(i, i + q.len()) == s.subrange(i + 1, i + 1 + q.len()));
            }
        }
        lemma_no_occurrence_after_replace(rest, pat, with, q);
        let tail = replace_all(rest, pat, with);
        assert forall|i: int| 0 <= i && i + q.len() <= r.len() implies #[trigger] r.subrange(
            i,
            i + q.len(),
        ) != q by {
            if i == 0 {
                if r.subrange(0, q.len() as int) == q {
                    let u = seq![s[0]];
                    assert(r == u + tail);
                    assert(r.take(q.len() as int) == r.subrange(0, q.len() as int));
                    if q.len() > 1 {
                        lemma_starts_before_replace(rest, pat, with, q, u);
                        assert(u + rest == s);
                    } else {
                        assert(s.take(1)[0] == s[0]);
                        assert(s.take(1) == q);
                    }
                    assert(s.subrange(0, q.len() as int) == s.take(q.len() as int));
                    if q == pat {
                        assert(s.take(pat.len() as int) == pat);
                    } else {
                        assert(occurs_in(s, q));
                    }
                }
            } else {
                assert(r.subrange(i, i + q.len()) == tail.subrange(i - 1, i - 1 + q.len()));
            }
        }
    }
}

/// Replacing a pattern that does not occur leaves the text as it is.
pub proof fn lemma_replace_absent(s: Seq<char>, pat: Seq<char>, with: Seq<char>)
    requires
        pat.len() > 0,
        !occurs_in(s, pat),
    ensures
        replace_all(s, pat, with) == s,
    decreases s.len(),
{
    if s.len() >= pat.len() {
        assert(s.subrange(0, pat.len() as int) == s.take(pat.len() as int));
        assert(s.subrange(0, 0 + pat.len() as int) != pat);
        let rest = s.skip(1);
        assert forall|i: int|
            0 <= i && i + pat.len() <= rest.len() implies #[trigger] rest.subrange(i, i + pat.len())
            != pat by {
            assert(rest.subrange(i, i + pat.len()) == s.subrange(i + 1, i + 1 + pat.len()));
        }
        lemma_replace_absent(rest, pat, with);
        assert(seq![s[0]] + rest == s);
    }
}

/// `s` without its space characters.
pub open spec fn without_spaces(s: Seq<char>) -> Seq<char> {
    s.filter(|c: char| c != ' ')
}

/// Taking the spaces out of a text without spaces leaves it as it is.
pub proof fn lemma_without_spaces_twice(s: Seq<char>)
    ensures
        without_spaces(without_spaces(s)) == without_spaces(s),
    decreases s.len(),
{
    reveal_with_fuel(Seq::<_>::filter, 1);
    if s.len() > 0 {
        lemma_without_spaces_twice(s.drop_last());
        let f = without_spaces(s.drop_last());
        if s.last() != ' ' {
            assert(f.push(s.last()).drop_last() == f);
        }
    }
}

/// Removing spaces drops exactly the space characters and keeps every other
/// character, in order: nothing comes from nothing, a space adds nothing, any
/// other character is kept at the end; so a text without spaces is kept whole.
pub proof fn law_strip_spaces_keeps_other_characters(s: Seq<char>, c: char)
    ensures
        without_spaces(Seq::empty()) == Seq::<char>::empty(),
        c == ' ' ==> without_spaces(s.push(c)) == without_spaces(s),
        c != ' ' ==> without_spaces(s.push(c)) == without_spaces(s).push(c),
        !s.contains(' ') ==> without_spaces(s) == s,
        !without_spaces(s).contains(' '),
{
    reveal_with_fuel(Seq::<_>::filter, 1);
    assert(s.push(c).drop_last() == s);
    lemma_no_spaces_kept(s);
    s.filter_lemma(|x: char| x != ' ');
}

/// A text without spaces is its own space-free form.
proof fn lemma_no_spaces_kept(s: Seq<char>)
    ensures
        !s.contains(' ') ==> without_spaces(s) == s,
    decreases s.len(),
{
    reveal_with_fuel(Seq::<_>::filter, 1);
    if s.len() > 0 && !s.contains(' ') {
        let d = s.drop_last();
        assert(!d.contains(' ')) by {
            if d.contains(' ') {
                let i = choose|i: int| 0 <= i < d.len() && d[i] == ' ';
                assert(s[i] == ' ');
            }
        }
        lemma_no_spaces_kept(d);
        assert(s.last() != ' ') by {
            assert(s[s.len() - 1] == s.last());
        }
        assert(d.push(s.last()) == s);
    }
}

/// The characters of `s` that are not spaces, in order.
pub fn strip_spaces(s: &str) -> (r: String)
    ensures
        r@ == without_spaces(s@),
{
    let cs = chars_of(s);
    let mut out = String::new();
    let mut i: usize = 0;
    while i < cs.len()
        invariant
            cs@ == s@,
            i <= cs@.len(),
            out@ == without_spaces(s@.take(i as int)),
        decreases cs@.len() - i,
    {
        assert(s@.take(i + 1).drop_last() == s@.take(i as int));
        reveal_with_fuel(Seq::<_>::filter, 1);
        if cs[i] != ' ' {
            push_char(&mut out, cs[i]);
        }
        i += 1;
    }
    assert(s@.take(i as int) == s@);
    out
}

/// The parts joined with `sep` between each two neighbours.
pub open spec fn join(parts: Seq<Seq<char>>, sep: Seq<char>) -> Seq<char>
    decreases parts.len(),
{
    if parts.len() == 0 {
        Seq::empty()
    } else if parts.len() == 1 {
        parts[0]
    } else {
        join(parts.drop_last(), sep) + sep + parts.last()
    }
}

/// The character sequences of a list of strings.
pub open spec fn views(v: Seq<String>) -> Seq<Seq<char>> {
    v.map_values(|s: String| s@)
}

/// The strings of `parts` joined with `sep` between each two neighbours.
pub fn join_strings(parts: &Vec<String>, sep: &str) -> (r: String)
    ensures
        r@ == join(views(parts@), sep@),
{
    let mut out = String::new();
    let mut i: usize = 0;
    while i < parts.len()
        invariant
            i <= parts@.len(),
            out@ == join(views(parts@).take(i as int), sep@),
        decreases parts@.len() - i,
    {
        assert(views(parts@).take(i + 1).drop_last() == views(parts@).take(i as int));
        if i > 0 {
            out.append(sep);
        }
        out.append(parts[i].as_str());
        i += 1;
    }
    assert(views(parts@).take(i as int) == views(parts@));
    out
}

/// The map that inserting `(keys[i], vals[i])` for `i = 0, 1, ..` in turn
/// builds: a later key replaces an earlier equal one.
pub open spec fn assoc<V>(keys: Seq<Seq<char>>, vals: Seq<V>) -> Map<Seq<char>, V>
    decreases keys.len(),
{
    if keys.len() == 0 {
        Map::empty()
    } else {
        assoc(keys.drop_last(), vals).insert(keys.last(), vals[keys.len() - 1])
    }
}

/// The last key equal to `keys[k]` decides what `assoc` maps it to.
pub proof fn lemma_assoc_hit<V>(keys: Seq<Seq<char>>, vals: Seq<V>, k: int)
    requires
        0 <= k < keys.len(),
        forall|j: int| k < j < keys.len() ==> keys[j] != keys[k],
    ensures
        assoc(keys, vals).contains_key(keys[k]),
        assoc(keys, vals)[keys[k]] == vals[k],
    decreases keys.len(),
{
    if k < keys.len() - 1 {
        let shorter = keys.drop_last();
        assert(shorter[k] == keys[k]);
        assert forall|j: int| k < j < shorter.len() implies shorter[j] != shorter[k] by {
            assert(shorter[j] == keys[j]);
        }
        lemma_assoc_hit(shorter, vals, k);
    }
}

/// A key that no entry has is not in `assoc`.
pub proof fn lemma_assoc_miss<V>(keys: Seq<Seq<char>>, vals: Seq<V>, key: Seq<char>)
    requires
        forall|j: int| 0 <= j < keys.len() ==> keys[j] != key,
    ensures
        !assoc(keys, vals).contains_key(key),
    decreases keys.len(),
{
    if keys.len() > 0 {
        let shorter = keys.drop_last();
        assert forall|j: int| 0 <= j < shorter.len() implies shorter[j] != key by {
            assert(shorter[j] == keys[j]);
        }
        lemma_assoc_miss(shorter, vals, key);
    }
}

/// `assoc` reads only the values at the indices of its keys.
pub proof fn lemma_assoc_values<V>(keys: Seq<Seq<char>>, v1: Seq<V>, v2: Seq<V>)
    requires
        forall|i: int| 0 <= i < keys.len() ==> v1[i] == v2[i],
    ensures
        assoc(keys, v1) == assoc(keys, v2),
    decreases keys.len(),
{
    if keys.len() > 0 {
        lemma_assoc_values(keys.drop_last(), v1, v2);
    }
}

/// The index of the last string of `keys` equal to `key`, if any.
pub fn find_last(keys: &Vec<String>, key: &str) -> (r: Option<usize>)
    ensures
        match r {
            Some(k) => k < keys@.len() && keys@[k as int]@ == key@ && forall|j: int|
                k < j < keys@.len() ==> keys@[j]@ != key@,
            None => forall|j: int| 0 <= j < keys@.len() ==> keys@[j]@ != key@,
        },
{
    let mut i: usize = keys.len();
    while i > 0
        invariant
            i <= keys@.len(),
            forall|j: int| i <= j < keys@.len() ==> keys@[j]@ != key@,
        decreases i,
    {
        if str_eq(keys[i - 1].as_str(), key) {
            return Some(i - 1);
        }
        i -= 1;
    }
    None
}

} // verus!
