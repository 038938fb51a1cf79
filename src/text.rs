use vstd::prelude::*;

verus! {

/// The characters that carry the Unicode `White_Space` property.
pub open spec fn is_white(c: char) -> bool {
    ('\u{9}' <= c && c <= '\u{d}') || c == ' ' || c == '\u{85}' || c == '\u{a0}'
        || c == '\u{1680}' || ('\u{2000}' <= c && c <= '\u{200a}') || c == '\u{2028}'
        || c == '\u{2029}' || c == '\u{202f}' || c == '\u{205f}' || c == '\u{3000}'
}

/// `s` without its leading white space.
pub open spec fn trim_start_of(s: Seq<char>) -> Seq<char>
    decreases s.len(),
{
    if s.len() > 0 && is_white(s[0]) {
        trim_start_of(s.drop_first())
    } else {
        s
    }
}

/// `s` without its trailing white space.
pub open spec fn trim_end_of(s: Seq<char>) -> Seq<char>
    decreases s.len(),
{
    if s.len() > 0 && is_white(s.last()) {
        trim_end_of(s.drop_last())
    } else {
        s
    }
}

/// `s` without white space at either end.
pub open spec fn trim_of(s: Seq<char>) -> Seq<char> {
    trim_end_of(trim_start_of(s))
}

/// The pieces of `s` between newline characters; an empty `s` is one empty piece.
pub open spec fn split_lines(s: Seq<char>) -> Seq<Seq<char>>
    decreases s.len(),
{
    if s.len() == 0 {
        seq![Seq::<char>::empty()]
    } else {
        let prev = split_lines(s.drop_last());
        if s.last() == '\n' {
            prev.push(Seq::<char>::empty())
        } else {
            prev.update(prev.len() - 1, prev.last().push(s.last()))
        }
    }
}

/// The pieces joined with one newline between each two.
pub open spec fn join_lines(ls: Seq<Seq<char>>) -> Seq<char>
    decreases ls.len(),
{
    if ls.len() == 0 {
        Seq::<char>::empty()
    } else if ls.len() == 1 {
        ls[0]
    } else {
        join_lines(ls.drop_last()) + seq!['\n'] + ls.last()
    }
}

/// Whether line `i` survives: a blank line survives only first, or right after a
/// line that is not blank.
pub open spec fn keeps_line(ls: Seq<Seq<char>>, i: int) -> bool {
    ls[i].len() > 0 || i == 0 || ls[i - 1].len() > 0
}

/// The lines of `ls` with each run of blank lines cut down to its first line.
pub open spec fn collapse_blank(ls: Seq<Seq<char>>) -> Seq<Seq<char>>
    decreases ls.len(),
{
    if ls.len() == 0 {
        Seq::<Seq<char>>::empty()
    } else {
        let prev = collapse_blank(ls.drop_last());
        if keeps_line(ls, ls.len() - 1) {
            prev.push(ls.last())
        } else {
            prev
        }
    }
}

/// Each line trimmed.
pub open spec fn trim_lines(ls: Seq<Seq<char>>) -> Seq<Seq<char>> {
    ls.map_values(|l: Seq<char>| trim_of(l))
}

/// The body as it is posted: lines trimmed, runs of blank lines cut to one.
pub open spec fn unified(s: Seq<char>) -> Seq<char> {
    join_lines(collapse_blank(trim_lines(split_lines(s))))
}

/// No line of `ls` holds a newline, and each is its own trim.
pub open spec fn clean_lines(ls: Seq<Seq<char>>) -> bool {
    forall|i: int| 0 <= i < ls.len() ==> !(#[trigger] ls[i]).contains('\n') && trim_of(ls[i]) == ls[i]
}

/// No two neighbouring lines of `ls` are both blank.
pub open spec fn no_double_blank(ls: Seq<Seq<char>>) -> bool {
    forall|i: int| 0 < i < ls.len() && (#[trigger] ls[i]).len() == 0 ==> ls[i - 1].len() > 0
}

proof fn lemma_split_lines_nonempty(s: Seq<char>)
    ensures
        split_lines(s).len() >= 1,
        forall|i: int| 0 <= i < split_lines(s).len() ==> !(#[trigger] split_lines(s)[i]).contains('\n'),
    decreases s.len(),
{
    if s.len() > 0 {
        lemma_split_lines_nonempty(s.drop_last());
        let prev = split_lines(s.drop_last());
        if s.last() != '\n' {
            let l = prev.last().push(s.last());
            assert forall|j: int| 0 <= j < l.len() implies l[j] != '\n' by {
                if j < l.len() - 1 {
                    assert(l[j] == prev.last()[j]);
                }
            }
        }
    }
}

proof fn lemma_split_no_newline(b: Seq<char>)
    requires
        !b.contains('\n'),
    ensures
        split_lines(b) == seq![b],
    decreases b.len(),
{
    if b.len() > 0 {
        let p = b.drop_last();
        assert(!p.contains('\n')) by {
            assert forall|j: int| 0 <= j < p.len() implies p[j] != '\n' by {
                assert(p[j] == b[j]);
            }
        }
        lemma_split_no_newline(p);
        assert(b.last() != '\n') by {
            assert(b[b.len() - 1] == b.last());
        }
        assert(p.push(b.last()) =~= b);
        assert(seq![p].update(0, p.push(b.last())) =~= seq![b]);
    } else {
        assert(b =~= Seq::<char>::empty());
    }
}

proof fn lemma_split_after_newline(a: Seq<char>, b: Seq<char>)
    requires
        !b.contains('\n'),
    ensures
        split_lines(a + seq!['\n'] + b) == split_lines(a).push(b),
    decreases b.len(),
{
    let an = a + seq!['\n'];
    if b.len() == 0 {
        assert(an + b =~= an);
        assert(an.drop_last() =~= a);
        assert(an.last() == '\n');
        assert(b =~= Seq::<char>::empty());
    } else {
        let p = b.drop_last();
        assert(!p.contains('\n')) by {
            assert forall|j: int| 0 <= j < p.len() implies p[j] != '\n' by {
                assert(p[j] == b[j]);
            }
        }
        lemma_split_after_newline(a, p);
        assert((an + b).drop_last() =~= an + p);
        assert((an + b).last() == b.last());
        assert(b.last() != '\n') by {
            assert(b[b.len() - 1] == b.last());
        }
        assert(p.push(b.last()) =~= b);
        let q = split_lines(a).push(p);
        assert(q.update(q.len() - 1, q.last().push(b.last())) =~= split_lines(a).push(b));
    }
}

proof fn lemma_split_join(ls: Seq<Seq<char>>)
    requires
        ls.len() >= 1,
        forall|i: int| 0 <= i < ls.len() ==> !(#[trigger] ls[i]).contains('\n'),
    ensures
        split_lines(join_lines(ls)) == ls,
    decreases ls.len(),
{
    if ls.len() == 1 {
        lemma_split_no_newline(ls[0]);
        assert(seq![ls[0]] =~= ls);
    } else {
        let p = ls.drop_last();
        assert forall|i: int| 0 <= i < p.len() implies !(#[trigger] p[i]).contains('\n') by {
            assert(p[i] == ls[i]);
        }
        lemma_split_join(p);
        assert(!ls.last().contains('\n')) by {
            assert(ls[ls.len() - 1] == ls.last());
        }
        lemma_split_after_newline(join_lines(p), ls.last());
        assert(p.push(ls.last()) =~= ls);
    }
}

proof fn lemma_trim_start(s: Seq<char>)
    ensures
        trim_start_of(s).len() <= s.len(),
        trim_start_of(s).len() == 0 || !is_white(trim_start_of(s)[0]),
        s.subrange(s.len() - trim_start_of(s).len(), s.len() as int) == trim_start_of(s),
    decreases s.len(),
{
    if s.len() > 0 && is_white(s[0]) {
        lemma_trim_start(s.drop_first());
        let t = trim_start_of(s);
        assert(s.subrange(s.len() - t.len(), s.len() as int) =~= s.drop_first().subrange(
            s.drop_first().len() - t.len(),
            s.drop_first().len() as int,
        ));
    } else {
        assert(s.subrange(0, s.len() as int) =~= s);
    }
}

proof fn lemma_trim_end(s: Seq<char>)
    ensures
        trim_end_of(s).len() <= s.len(),
        trim_end_of(s).len() == 0 || !is_white(trim_end_of(s).last()),
        s.subrange(0, trim_end_of(s).len() as int) == trim_end_of(s),
    decreases s.len(),
{
    if s.len() > 0 && is_white(s.last()) {
        lemma_trim_end(s.drop_last());
        let t = trim_end_of(s);
        assert(s.subrange(0, t.len() as int) =~= s.drop_last().subrange(0, t.len() as int));
    } else {
        assert(s.subrange(0, s.len() as int) =~= s);
    }
}

/// Trimming twice is trimming once, and trimming adds no newline.
proof fn lemma_trim_clean(s: Seq<char>)
    requires
        !s.contains('\n'),
    ensures
        trim_of(trim_of(s)) == trim_of(s),
        !trim_of(s).contains('\n'),
{
    let a = trim_start_of(s);
    let t = trim_end_of(a);
    lemma_trim_start(s);
    lemma_trim_end(a);
    assert forall|j: int| 0 <= j < t.len() implies t[j] != '\n' by {
        assert(t[j] == a[j]);
        assert(a[j] == s[s.len() - a.len() + j]);
    }
    if t.len() > 0 {
        assert(t[0] == a[0]);
    }
    assert(trim_start_of(t) == t);
    assert(trim_end_of(t) == t);
}

proof fn lemma_collapse_shape(ls: Seq<Seq<char>>)
    requires
        clean_lines(ls),
    ensures
        clean_lines(collapse_blank(ls)),
        no_double_blank(collapse_blank(ls)),
        ls.len() >= 1 ==> collapse_blank(ls).len() >= 1,
        ls.len() >= 1 && ls.last().len() > 0 ==> collapse_blank(ls).last() == ls.last(),
    decreases ls.len(),
{
    if ls.len() > 0 {
        let p = ls.drop_last();
        assert forall|i: int| 0 <= i < p.len() implies !(#[trigger] p[i]).contains('\n') && trim_of(
            p[i],
        ) == p[i] by {
            assert(p[i] == ls[i]);
        }
        lemma_collapse_shape(p);
        let c = collapse_blank(p);
        let n = ls.len() - 1;
        if keeps_line(ls, n) {
            let d = c.push(ls.last());
            assert(ls[n] == ls.last());
            assert forall|i: int| 0 <= i < d.len() implies !(#[trigger] d[i]).contains('\n') && trim_of(
                d[i],
            ) == d[i] by {
                if i < c.len() {
                    assert(d[i] == c[i]);
                }
            }
            assert forall|i: int| 0 < i < d.len() && (#[trigger] d[i]).len() == 0 implies d[i
                - 1].len() > 0 by {
                if i < c.len() {
                    assert(d[i] == c[i]);
                    assert(d[i - 1] == c[i - 1]);
                } else {
                    assert(n > 0);
                    assert(ls[n - 1] == p.last());
                    assert(d[i - 1] == c.last());
                }
            }
        }
    }
}

proof fn lemma_collapse_settled(ls: Seq<Seq<char>>)
    requires
        no_double_blank(ls),
    ensures
        collapse_blank(ls) == ls,
    decreases ls.len(),
{
    if ls.len() > 0 {
        let p = ls.drop_last();
        assert forall|i: int| 0 < i < p.len() && (#[trigger] p[i]).len() == 0 implies p[i
            - 1].len() > 0 by {
            assert(p[i] == ls[i]);
            assert(p[i - 1] == ls[i - 1]);
        }
        lemma_collapse_settled(p);
        let n = ls.len() - 1;
        assert(ls[n] == ls.last());
        assert(keeps_line(ls, n));
        assert(p.push(ls.last()) =~= ls);
    }
}

/// The lines of a unified body: none holds a newline or stray white space at
/// either end, no two blank lines stand side by side, and there is at least one.
proof fn lemma_unified_lines(s: Seq<char>)
    ensures
        split_lines(unified(s)) == collapse_blank(trim_lines(split_lines(s))),
        clean_lines(collapse_blank(trim_lines(split_lines(s)))),
        no_double_blank(collapse_blank(trim_lines(split_lines(s)))),
{
    let sp = split_lines(s);
    lemma_split_lines_nonempty(s);
    let t = trim_lines(sp);
    assert forall|i: int| 0 <= i < t.len() implies !(#[trigger] t[i]).contains('\n') && trim_of(t[i])
        == t[i] by {
        lemma_trim_clean(sp[i]);
    }
    lemma_collapse_shape(t);
    let c = collapse_blank(t);
    assert forall|i: int| 0 <= i < c.len() implies !(#[trigger] c[i]).contains('\n') by {}
    lemma_split_join(c);
}

/// Unifying a body that was already unified changes nothing.
pub proof fn lemma_unify_idempotent(s: Seq<char>)
    ensures
        unified(unified(s)) == unified(s),
{
    let u = unified(s);
    let c = collapse_blank(trim_lines(split_lines(s)));
    lemma_unified_lines(s);
    assert(trim_lines(c) =~= c);
    lemma_collapse_settled(c);
}

/// In a unified body no two blank lines stand side by side: a run of any number
/// of blank lines has become one.
pub proof fn lemma_unify_single_blank(s: Seq<char>)
    ensures
        no_double_blank(split_lines(unified(s))),
{
    lemma_unified_lines(s);
}

/// `k` newline characters.
pub open spec fn newlines(k: nat) -> Seq<char> {
    Seq::new(k, |i: int| '\n')
}

/// `k` blank lines.
pub open spec fn blanks(k: nat) -> Seq<Seq<char>> {
    Seq::new(k, |i: int| Seq::<char>::empty())
}

proof fn lemma_split_newlines(a: Seq<char>, j: nat)
    requires
        !a.contains('\n'),
    ensures
        split_lines(a + newlines(j)) == seq![a] + blanks(j),
    decreases j,
{
    if j == 0 {
        assert(a + newlines(0) =~= a);
        lemma_split_no_newline(a);
        assert(seq![a] + blanks(0) =~= seq![a]);
    } else {
        lemma_split_newlines(a, (j - 1) as nat);
        let x = a + newlines(j);
        assert(x.drop_last() =~= a + newlines((j - 1) as nat));
        assert(x.last() == '\n');
        assert((seq![a] + blanks((j - 1) as nat)).push(Seq::<char>::empty()) =~= seq![a] + blanks(j));
    }
}

proof fn lemma_collapse_blanks(a: Seq<char>, j: nat)
    requires
        a.len() > 0,
        j >= 1,
    ensures
        collapse_blank(seq![a] + blanks(j)) == seq![a, Seq::<char>::empty()],
    decreases j,
{
    let ls = seq![a] + blanks(j);
    assert(ls.drop_last() =~= seq![a] + blanks((j - 1) as nat));
    assert(ls[ls.len() - 1] == ls.last());
    if j == 1 {
        let one = seq![a];
        assert(seq![a] + blanks(0) =~= one);
        assert(one.drop_last() =~= Seq::<Seq<char>>::empty());
        assert(keeps_line(one, 0));
        assert(Seq::<Seq<char>>::empty().push(a) =~= one);
        assert(ls[0] == a);
        assert(keeps_line(ls, 1));
        assert(collapse_blank(Seq::<Seq<char>>::empty()) == Seq::<Seq<char>>::empty());
        assert(collapse_blank(one) == seq![a]);
        assert(ls.last() == Seq::<char>::empty());
        assert(collapse_blank(ls) == collapse_blank(one).push(ls.last()));
        assert(one.push(Seq::<char>::empty()) =~= seq![a, Seq::<char>::empty()]);
    } else {
        lemma_collapse_blanks(a, (j - 1) as nat);
        assert(ls[j as int].len() == 0);
        assert(ls[j - 1].len() == 0);
        assert(!keeps_line(ls, j as int));
        assert(collapse_blank(ls) == collapse_blank(ls.drop_last()));
    }
}

/// Between two lines that trimming leaves unchanged and that are not blank,
/// any run of two or more newlines, that is of one or more blank lines,
/// becomes exactly one blank line.
pub proof fn lemma_blank_run_between_lines(a: Seq<char>, b: Seq<char>, k: nat)
    requires
        a.len() > 0,
        b.len() > 0,
        !a.contains('\n'),
        !b.contains('\n'),
        trim_of(a) == a,
        trim_of(b) == b,
        k >= 2,
    ensures
        unified(a + newlines(k) + b) == a + seq!['\n', '\n'] + b,
{
    let j = (k - 1) as nat;
    let s = a + newlines(k) + b;
    assert(s =~= (a + newlines(j)) + seq!['\n'] + b);
    lemma_split_after_newline(a + newlines(j), b);
    lemma_split_newlines(a, j);
    let sp = (seq![a] + blanks(j)).push(b);
    assert(split_lines(s) == sp);
    assert(trim_start_of(Seq::<char>::empty()) == Seq::<char>::empty());
    assert(trim_end_of(Seq::<char>::empty()) == Seq::<char>::empty());
    assert(trim_lines(sp) =~= sp) by {
        assert forall|i: int| 0 <= i < sp.len() implies trim_of(sp[i]) == sp[i] by {
            if 0 < i < sp.len() - 1 {
                assert(sp[i] == Seq::<char>::empty());
            }
        }
    }
    lemma_collapse_blanks(a, j);
    assert(sp.drop_last() =~= seq![a] + blanks(j));
    assert(sp[sp.len() - 1] == b);
    assert(keeps_line(sp, sp.len() - 1));
    let c = seq![a, Seq::<char>::empty(), b];
    assert(collapse_blank(sp) =~= c);
    assert(c.drop_last() =~= seq![a, Seq::<char>::empty()]);
    assert(seq![a, Seq::<char>::empty()].drop_last() =~= seq![a]);
    let e = Seq::<char>::empty();
    assert(join_lines(seq![a]) == a);
    assert(seq![a, e].last() == e);
    assert(join_lines(seq![a, e]) == join_lines(seq![a]) + seq!['\n'] + e);
    assert(c.last() == b);
    assert(join_lines(c) == join_lines(seq![a, e]) + seq!['\n'] + b);
    assert(a + seq!['\n'] + e + seq!['\n'] + b =~= a + seq!['\n', '\n'] + b);
}

/// Relies on `str::split`: the pieces of `s` between `'\n'` characters, in order.
#[verifier::external_body]
fn split_on_newline(s: &str) -> (r: Vec<&str>)
    ensures
        r@.map_values(|p: &str| p@) == split_lines(s@),
{
    s.split('\n').collect()
}

/// Relies on `str::trim`: the slice without leading and trailing `White_Space`.
#[verifier::external_body]
fn trim(s: &str) -> (r: &str)
    ensures
        r@ == trim_of(s@),
{
    s.trim()
}

/// Trims every line of `value` and collapses each run of blank lines into one,
/// then joins the lines again with `'\n'`.
pub fn unify_new_lines(value: &String) -> (r: String)
    ensures
        r@ == unified(value@),
{
    let parts = split_on_newline(value.as_str());
    let ghost lines = trim_lines(split_lines(value@));
    let mut out = String::new();
    let mut kept: usize = 0;
    let mut prev_blank = false;
    let nl = "\n";
    proof {
        reveal_strlit("\n");
    }
    let mut i: usize = 0;
    while i < parts.len()
        invariant
            0 <= i <= parts@.len(),
            kept <= i,
            parts@.map_values(|p: &str| p@) == split_lines(value@),
            lines == trim_lines(split_lines(value@)),
            lines.len() == parts@.len(),
            nl@ == seq!['\n'],
            kept as int == collapse_blank(lines.subrange(0, i as int)).len(),
            out@ == join_lines(collapse_blank(lines.subrange(0, i as int))),
            prev_blank == (i > 0 && lines[i - 1].len() == 0),
        decreases parts@.len() - i,
    {
        let t = trim(parts[i]);
        let blank = t.is_empty();
        let ghost pre = lines.subrange(0, i as int);
        let ghost cur = lines.subrange(0, i + 1);
        proof {
            assert(parts@.map_values(|p: &str| p@)[i as int] == parts@[i as int]@);
            assert(t@ == lines[i as int]);
            assert(cur.drop_last() =~= pre);
            assert(cur.last() == lines[i as int]);
            assert(keeps_line(cur, i as int) == keeps_line(lines, i as int));
        }
        if !blank || i == 0 || !prev_blank {
            proof {
                let c = collapse_blank(pre);
                assert(c.push(t@).drop_last() =~= c);
            }
            if kept > 0 {
                out.append(nl);
            }
            out.append(t);
            kept = kept + 1;
        }
        prev_blank = blank;
        i = i + 1;
    }
    proof {
        assert(lines.subrange(0, lines.len() as int) =~= lines);
    }
    out
}

} // verus!
