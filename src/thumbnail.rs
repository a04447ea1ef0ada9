//! Thumbnail address templating and the storage key of a channel's thumbnail.
use vstd::prelude::*;

verus! {

/// Whether `p` occurs in `s` starting at position `i`.
pub open spec fn occurs_at(s: Seq<char>, p: Seq<char>, i: int) -> bool {
    0 <= i && i + p.len() <= s.len() && s.subrange(i, i + p.len()) == p
}

/// Whether `p` occurs anywhere in `s`.
pub open spec fn occurs_in(s: Seq<char>, p: Seq<char>) -> bool {
    exists|i: int| occurs_at(s, p, i)
}

/// `s` with every occurrence of `pat` replaced by `rep`, scanning from the
/// left and never replacing two overlapping occurrences.
pub open spec fn replace_all(s: Seq<char>, pat: Seq<char>, rep: Seq<char>) -> Seq<char>
    decreases s.len(),
{
    if pat.len() == 0 || s.len() < pat.len() {
        s
    } else if s.subrange(0, pat.len() as int) == pat {
        rep + replace_all(s.subrange(pat.len() as int, s.len() as int), pat, rep)
    } else {
        seq![s[0]] + replace_all(s.subrange(1, s.len() as int), pat, rep)
    }
}

/// Whether `pat` occurs in `s` at character position `i`.
fn occurs_at_exec(s: &Vec<char>, pat: &Vec<char>, i: usize) -> (r: bool)
    requires
        i + pat@.len() <= s@.len(),
    ensures
        r == occurs_at(s@, pat@, i as int),
{
    let m = pat.len();
    let mut j: usize = 0;
    while j < m
        invariant
            m == pat@.len(),
            i + m <= s@.len(),
            s@.len() == s.len(),
            j <= m,
            forall|k: int| 0 <= k < j ==> s@[i + k] == pat@[k],
        decreases m - j,
    {
        if s[i + j] != pat[j] {
            assert(s@.subrange(i as int, i + m)[j as int] != pat@[j as int]);
            return false;
        }
        j = j + 1;
    }
    assert(s@.subrange(i as int, i + m) =~= pat@);
    true
}

/// The characters of `s`, in order.
fn chars_of(s: &str) -> (r: Vec<char>)
    ensures
        r@ == s@,
{
    let n = s.unicode_len();
    let mut r: Vec<char> = Vec::new();
    let mut i: usize = 0;
    while i < n
        invariant
            n == s@.len(),
            i <= n,
            r@ == s@.subrange(0, i as int),
        decreases n - i,
    {
        r.push(s.get_char(i));
        i = i + 1;
    }
    assert(r@ =~= s@);
    r
}

/// Replaces every occurrence of `pat` in `s` by `rep`, from the left.
pub fn replace_str(s: &str, pat: &str, rep: &str) -> (r: String)
    requires
        pat@.len() > 0,
    ensures
        r@ == replace_all(s@, pat@, rep@),
{
    let cs = chars_of(s);
    let ps = chars_of(pat);
    let n = cs.len();
    let m = ps.len();
    let mut out = String::new();
    let mut i: usize = 0;
    assert(s@.subrange(0, n as int) =~= s@);
    assert(out@ + replace_all(s@, pat@, rep@) =~= replace_all(s@, pat@, rep@));
    while i < n
        invariant
            n == s@.len(),
            m == pat@.len(),
            m > 0,
            cs@ == s@,
            ps@ == pat@,
            i <= n,
            out@ + replace_all(s@.subrange(i as int, n as int), pat@, rep@) == replace_all(
                s@,
                pat@,
                rep@,
            ),
        decreases n - i,
    {
        let ghost t = s@.subrange(i as int, n as int);
        if n - i < m {
            let rest = s.substring_char(i, n);
            assert(replace_all(t, pat@, rep@) == t);
            out.append(rest);
            assert(s@.subrange(n as int, n as int).len() == 0);
            i = n;
        } else if occurs_at_exec(&cs, &ps, i) {
            assert(t.subrange(0, m as int) =~= s@.subrange(i as int, i + m));
            assert(t.subrange(m as int, t.len() as int) =~= s@.subrange(i + m, n as int));
            out.append(rep);
            assert(out@ + replace_all(s@.subrange(i + m, n as int), pat@, rep@) =~= replace_all(
                s@,
                pat@,
                rep@,
            ));
            i = i + m;
        } else {
            assert(t.subrange(0, m as int) =~= s@.subrange(i as int, i + m));
            assert(t.subrange(1, t.len() as int) =~= s@.subrange(i + 1, n as int));
            let c = s.substring_char(i, i + 1);
            assert(c@ =~= seq![t[0]]);
            out.append(c);
            assert(out@ + replace_all(s@.subrange(i + 1, n as int), pat@, rep@) =~= replace_all(
                s@,
                pat@,
                rep@,
            ));
            i = i + 1;
        }
    }
    assert(replace_all(s@.subrange(n as int, n as int), pat@, rep@) == Seq::<char>::empty());
    assert(out@ =~= out@ + Seq::<char>::empty());
    out
}

/// No character of `a` appears in `b`.
pub open spec fn disjoint_chars(a: Seq<char>, b: Seq<char>) -> bool {
    forall|i: int, j: int| 0 <= i < a.len() && 0 <= j < b.len() ==> a[i] != b[j]
}

/// If the result of a replacement starts with `w`, whose characters are not
/// those of a non-empty replacement `r`, then the input started with `w`.
proof fn lemma_prefix_comes_from_input(t: Seq<char>, p: Seq<char>, r: Seq<char>, w: Seq<char>)
    requires
        r.len() > 0,
        disjoint_chars(w, r),
        w.len() <= replace_all(t, p, r).len(),
        replace_all(t, p, r).subrange(0, w.len() as int) == w,
    ensures
        w.len() <= t.len(),
        t.subrange(0, w.len() as int) == w,
    decreases t.len(),
{
    let out = replace_all(t, p, r);
    if w.len() == 0 {
        assert(t.subrange(0, 0) =~= w);
    } else if p.len() == 0 || t.len() < p.len() {
    } else if t.subrange(0, p.len() as int) == p {
        assert(out[0] == r[0]);
        assert(w[0] == out.subrange(0, w.len() as int)[0]);
    } else {
        let t1 = t.subrange(1, t.len() as int);
        let rest = replace_all(t1, p, r);
        let w1 = w.subrange(1, w.len() as int);
        assert(out == seq![t[0]] + rest);
        assert(rest.subrange(0, w1.len() as int) =~= out.subrange(0, w.len() as int).subrange(
            1,
            w.len() as int,
        ));
        assert(disjoint_chars(w1, r)) by {
            assert forall|i: int, j: int| 0 <= i < w1.len() && 0 <= j < r.len() implies w1[i]
                != r[j] by {
                assert(w1[i] == w[i + 1]);
            }
        }
        lemma_prefix_comes_from_input(t1, p, r, w1);
        assert(w[0] == out.subrange(0, w.len() as int)[0]);
        assert(t.subrange(0, w.len() as int) =~= seq![t[0]] + t1.subrange(0, w1.len() as int));
        assert(w =~= seq![w[0]] + w1);
    }
}

/// Replacing `q` by a non-empty `r` that shares no character with `p` leaves
/// no occurrence of `p`, provided `p` is `q` itself or did not occur before.
pub proof fn lemma_replace_leaves_no_occurrence(s: Seq<char>, q: Seq<char>, r: Seq<char>, p: Seq<char>)
    requires
        q.len() > 0,
        r.len() > 0,
        p.len() > 0,
        disjoint_chars(p, r),
        q == p || !occurs_in(s, p),
    ensures
        !occurs_in(replace_all(s, q, r), p),
    decreases s.len(),
{
    let out = replace_all(s, q, r);
    let n = p.len() as int;
    if s.len() < q.len() {
        if q != p {
            assert(out == s);
        } else {
            assert forall|i: int| !occurs_at(out, p, i) by {
                assert(out == s);
            }
        }
    } else if s.subrange(0, q.len() as int) == q {
        let s2 = s.subrange(q.len() as int, s.len() as int);
        let rest = replace_all(s2, q, r);
        assert(out == r + rest);
        if q != p {
            assert forall|i: int| !occurs_at(s2, p, i) by {
                if occurs_at(s2, p, i) {
                    assert(s.subrange(i + q.len(), i + q.len() + n) =~= s2.subrange(i, i + n));
                    assert(occurs_at(s, p, i + q.len()));
                }
            }
        }
        lemma_replace_leaves_no_occurrence(s2, q, r, p);
        assert forall|i: int| !occurs_at(out, p, i) by {
            if occurs_at(out, p, i) {
                if i < r.len() {
                    assert(out[i] == r[i]);
                    assert(out.subrange(i, i + n)[0] == p[0]);
                } else {
                    assert(rest.subrange(i - r.len(), i - r.len() + n) =~= out.subrange(i, i + n));
                    assert(occurs_at(rest, p, i - r.len()));
                }
            }
        }
    } else {
        let s1 = s.subrange(1, s.len() as int);
        let rest = replace_all(s1, q, r);
        assert(out == seq![s[0]] + rest);
        if q != p {
            assert forall|i: int| !occurs_at(s1, p, i) by {
                if occurs_at(s1, p, i) {
                    assert(s.subrange(i + 1, i + 1 + n) =~= s1.subrange(i, i + n));
                    assert(occurs_at(s, p, i + 1));
                }
            }
        }
        lemma_replace_leaves_no_occurrence(s1, q, r, p);
        assert forall|i: int| !occurs_at(out, p, i) by {
            if occurs_at(out, p, i) {
                if i == 0 {
                    let w = p.subrange(1, n);
                    assert(rest.subrange(0, w.len() as int) =~= out.subrange(0, n).subrange(1, n));
                    assert(disjoint_chars(w, r)) by {
                        assert forall|a: int, b: int| 0 <= a < w.len() && 0 <= b < r.len() implies w[a]
                            != r[b] by {
                            assert(w[a] == p[a + 1]);
                        }
                    }
                    lemma_prefix_comes_from_input(s1, q, r, w);
                    assert(out[0] == s[0]);
                    assert(out.subrange(0, n)[0] == p[0]);
                    assert(s.subrange(0, n) =~= seq![s[0]] + s1.subrange(0, w.len() as int));
                    assert(p =~= seq![p[0]] + w);
                    assert(occurs_at(s, p, 0));
                } else {
                    assert(rest.subrange(i - 1, i - 1 + n) =~= out.subrange(i, i + n));
                    assert(occurs_at(rest, p, i - 1));
                }
            }
        }
    }
}

/// Replacing a pattern that does not occur changes nothing.
pub proof fn lemma_replace_absent_is_identity(s: Seq<char>, p: Seq<char>, r: Seq<char>)
    requires
        p.len() > 0,
        !occurs_in(s, p),
    ensures
        replace_all(s, p, r) == s,
    decreases s.len(),
{
    if s.len() >= p.len() {
        assert(!occurs_at(s, p, 0));
        let s1 = s.subrange(1, s.len() as int);
        assert forall|i: int| !occurs_at(s1, p, i) by {
            if occurs_at(s1, p, i) {
                assert(s.subrange(i + 1, i + 1 + p.len()) =~= s1.subrange(i, i + p.len()));
                assert(occurs_at(s, p, i + 1));
            }
        }
        lemma_replace_absent_is_identity(s1, p, r);
        assert(s =~= seq![s[0]] + s1);
    }
}

/// The placeholder for the image width in a thumbnail address template.
pub open spec fn width_placeholder() -> Seq<char> {
    "{width}"@
}

/// The placeholder for the image height in a thumbnail address template.
pub open spec fn height_placeholder() -> Seq<char> {
    "{height}"@
}

/// A thumbnail address template with the archived resolution, 1280 by 720,
/// written in place of its placeholders. Other text is kept as it is.
pub open spec fn resolved_url(template: Seq<char>) -> Seq<char> {
    replace_all(replace_all(template, width_placeholder(), "1280"@), height_placeholder(), "720"@)
}

/// The key under which the thumbnail of a channel is stored.
pub open spec fn storage_key_of(login: Seq<char>) -> Seq<char> {
    login + ".jpg"@
}

/// Writes the archived resolution into a thumbnail address template.
pub fn resolve_thumbnail_url(template: &str) -> (r: String)
    ensures
        r@ == resolved_url(template@),
{
    proof {
        reveal_strlit("{width}");
        reveal_strlit("{height}");
    }
    let sized = replace_str(template, "{width}", "1280");
    replace_str(sized.as_str(), "{height}", "720")
}

/// The storage key of a channel's thumbnail: its login followed by `.jpg`.
pub fn storage_key(login: &str) -> (r: String)
    ensures
        r@ == storage_key_of(login@),
{
    let mut key = String::from_str(login);
    key.append(".jpg");
    key
}

/// A resolved address holds no placeholder, and resolving it once more
/// leaves it as it is.
pub proof fn lemma_resolve_is_idempotent(template: Seq<char>)
    ensures
        !occurs_in(resolved_url(template), width_placeholder()),
        !occurs_in(resolved_url(template), height_placeholder()),
        resolved_url(resolved_url(template)) == resolved_url(template),
{
    reveal_strlit("{width}");
    reveal_strlit("{height}");
    reveal_strlit("1280");
    reveal_strlit("720");
    let w = width_placeholder();
    let h = height_placeholder();
    assert(disjoint_chars(w, "1280"@));
    assert(disjoint_chars(w, "720"@));
    assert(disjoint_chars(h, "720"@));
    let sized = replace_all(template, w, "1280"@);
    lemma_replace_leaves_no_occurrence(template, w, "1280"@, w);
    let done = replace_all(sized, h, "720"@);
    lemma_replace_leaves_no_occurrence(sized, h, "720"@, w);
    lemma_replace_leaves_no_occurrence(sized, h, "720"@, h);
    lemma_replace_absent_is_identity(done, w, "1280"@);
    lemma_replace_absent_is_identity(done, h, "720"@);
}

/// The storage key is the login with `.jpg` after it: the login is read back
/// from its front, and two logins share a key only if they are equal.
pub proof fn lemma_storage_key_round_trip(a: Seq<char>, b: Seq<char>)
    ensures
        storage_key_of(a).len() == a.len() + 4,
        storage_key_of(a).subrange(0, a.len() as int) == a,
        storage_key_of(a).subrange(a.len() as int, a.len() + 4int) == ".jpg"@,
        storage_key_of(a) == storage_key_of(b) ==> a == b,
{
    reveal_strlit(".jpg");
    assert(storage_key_of(a).subrange(0, a.len() as int) =~= a);
    assert(storage_key_of(a).subrange(a.len() as int, a.len() + 4int) =~= ".jpg"@);
    if storage_key_of(a) == storage_key_of(b) {
        assert(storage_key_of(b).subrange(0, b.len() as int) =~= b);
    }
}

/// A prefix `w` of the input survives a replacement when no occurrence of the
/// pattern starts inside it.
proof fn lemma_prefix_kept(t: Seq<char>, q: Seq<char>, r: Seq<char>, w: Seq<char>)
    requires
        q.len() > 0,
        w.len() <= t.len(),
        t.subrange(0, w.len() as int) == w,
        forall|m: int| 0 <= m < w.len() ==> !occurs_at(t, q, m),
    ensures
        w.len() <= replace_all(t, q, r).len(),
        replace_all(t, q, r).subrange(0, w.len() as int) == w,
    decreases t.len(),
{
    let out = replace_all(t, q, r);
    if w.len() == 0 {
        assert(out.subrange(0, 0) =~= w);
    } else if t.len() < q.len() {
    } else {
        assert(!occurs_at(t, q, 0));
        let t1 = t.subrange(1, t.len() as int);
        let w1 = w.subrange(1, w.len() as int);
        let rest = replace_all(t1, q, r);
        assert(out == seq![t[0]] + rest);
        assert(t1.subrange(0, w1.len() as int) =~= t.subrange(0, w.len() as int).subrange(
            1,
            w.len() as int,
        ));
        assert forall|m: int| 0 <= m < w1.len() implies !occurs_at(t1, q, m) by {
            if occurs_at(t1, q, m) {
                assert(t.subrange(m + 1, m + 1 + q.len()) =~= t1.subrange(m, m + q.len()));
                assert(occurs_at(t, q, m + 1));
            }
        }
        lemma_prefix_kept(t1, q, r, w1);
        assert(w[0] == t.subrange(0, w.len() as int)[0]);
        assert(out.subrange(0, w.len() as int) =~= seq![t[0]] + rest.subrange(0, w1.len() as int));
        assert(w =~= seq![w[0]] + w1);
    }
}

/// An occurrence of `x` that no occurrence of `q` overlaps is still found
/// after `q` is replaced.
proof fn lemma_untouched_occurrence_kept(s: Seq<char>, x: Seq<char>, i: int, q: Seq<char>, r: Seq<char>)
    requires
        q.len() > 0,
        occurs_at(s, x, i),
        forall|m: int| i - q.len() < m < i + x.len() ==> !occurs_at(s, q, m),
    ensures
        occurs_in(replace_all(s, q, r), x),
    decreases s.len(),
{
    let out = replace_all(s, q, r);
    if s.len() < q.len() {
        assert(occurs_at(out, x, i));
    } else if i == 0 {
        assert(s.subrange(0, x.len() as int) == x);
        lemma_prefix_kept(s, q, r, x);
        assert(occurs_at(out, x, 0));
    } else if s.subrange(0, q.len() as int) == q {
        assert(occurs_at(s, q, 0));
        let n = q.len() as int;
        let s2 = s.subrange(n, s.len() as int);
        let rest = replace_all(s2, q, r);
        assert(out == r + rest);
        assert(s2.subrange(i - n, i - n + x.len()) =~= s.subrange(i, i + x.len()));
        assert forall|m: int| (i - n) - n < m < (i - n) + x.len() implies !occurs_at(s2, q, m) by {
            if occurs_at(s2, q, m) {
                assert(s.subrange(m + n, m + n + n) =~= s2.subrange(m, m + n));
                assert(occurs_at(s, q, m + n));
            }
        }
        lemma_untouched_occurrence_kept(s2, x, i - n, q, r);
        let j = choose|j: int| occurs_at(rest, x, j);
        assert(out.subrange(j + r.len(), j + r.len() + x.len()) =~= rest.subrange(j, j + x.len()));
        assert(occurs_at(out, x, j + r.len()));
    } else {
        let s1 = s.subrange(1, s.len() as int);
        let rest = replace_all(s1, q, r);
        assert(out == seq![s[0]] + rest);
        assert(s1.subrange(i - 1, i - 1 + x.len()) =~= s.subrange(i, i + x.len()));
        assert forall|m: int| (i - 1) - q.len() < m < (i - 1) + x.len() implies !occurs_at(
            s1,
            q,
            m,
        ) by {
            if occurs_at(s1, q, m) {
                assert(s.subrange(m + 1, m + 1 + q.len()) =~= s1.subrange(m, m + q.len()));
                assert(occurs_at(s, q, m + 1));
            }
        }
        lemma_untouched_occurrence_kept(s1, x, i - 1, q, r);
        let j = choose|j: int| occurs_at(rest, x, j);
        assert(out.subrange(j + 1, j + 1 + x.len()) =~= rest.subrange(j, j + x.len()));
        assert(occurs_at(out, x, j + 1));
    }
}

/// Where the pattern occurs, its replacement occurs in the result.
proof fn lemma_replacement_written(s: Seq<char>, p: Seq<char>, r: Seq<char>)
    requires
        p.len() > 0,
        occurs_in(s, p),
    ensures
        occurs_in(replace_all(s, p, r), r),
    decreases s.len(),
{
    let out = replace_all(s, p, r);
    let i = choose|i: int| occurs_at(s, p, i);
    if s.subrange(0, p.len() as int) == p {
        assert(out.subrange(0, r.len() as int) =~= r);
        assert(occurs_at(out, r, 0));
    } else {
        let s1 = s.subrange(1, s.len() as int);
        let rest = replace_all(s1, p, r);
        assert(out == seq![s[0]] + rest);
        assert(i != 0);
        assert(s1.subrange(i - 1, i - 1 + p.len()) =~= s.subrange(i, i + p.len()));
        assert(occurs_at(s1, p, i - 1));
        lemma_replacement_written(s1, p, r);
        let j = choose|j: int| occurs_at(rest, r, j);
        assert(out.subrange(j + 1, j + 1 + r.len()) =~= rest.subrange(j, j + r.len()));
        assert(occurs_at(out, r, j + 1));
    }
}

/// A template that holds both placeholders resolves to an address that holds
/// the width `1280` and the height `720`.
pub proof fn lemma_resolve_writes_resolution(template: Seq<char>)
    requires
        occurs_in(template, width_placeholder()),
        occurs_in(template, height_placeholder()),
    ensures
        occurs_in(resolved_url(template), "1280"@),
        occurs_in(resolved_url(template), "720"@),
{
    reveal_strlit("{width}");
    reveal_strlit("{height}");
    reveal_strlit("1280");
    let w = width_placeholder();
    let h = height_placeholder();
    let sized = replace_all(template, w, "1280"@);
    lemma_replacement_written(template, w, "1280"@);
    let i = choose|i: int| occurs_at(template, h, i);
    assert forall|m: int| i - w.len() < m < i + h.len() implies !occurs_at(template, w, m) by {
        if occurs_at(template, w, m) {
            let k = if m <= i { i } else { m };
            assert(template.subrange(i, i + 8)[k - i] == template[k]);
            assert(template.subrange(m, m + 7)[k - m] == template[k]);
            if m == i {
                assert(template.subrange(i, i + 8)[1] == template.subrange(m, m + 7)[1]);
            }
        }
    }
    lemma_untouched_occurrence_kept(template, h, i, w, "1280"@);
    lemma_replacement_written(sized, h, "720"@);
    let j = choose|j: int| occurs_at(sized, "1280"@, j);
    assert forall|m: int| j - h.len() < m < j + 4 implies !occurs_at(sized, h, m) by {
        if occurs_at(sized, h, m) {
            let k = if m <= j { j } else { m };
            assert(sized.subrange(j, j + 4)[k - j] == sized[k]);
            assert(sized.subrange(m, m + 8)[k - m] == sized[k]);
        }
    }
    lemma_untouched_occurrence_kept(sized, "1280"@, j, h, "720"@);
}

} // verus!
