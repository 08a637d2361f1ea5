//! What holds of the line grammar across all lines.
use vstd::prelude::*;
use crate::line_names::{join_names, line_spec, render, scan_names, scan_number};
use crate::text::{all_digits, decimal, is_digit, is_name_char, lemma_decimal};

verus! {

/// A name: one or more name characters.
pub open spec fn is_name(n: Seq<char>) -> bool {
    n.len() > 0 && forall|i: int| 0 <= i < n.len() ==> is_name_char(#[trigger] n[i])
}

/// The text without its spaces.
pub open spec fn without_spaces(s: Seq<char>) -> Seq<char>
    decreases s.len(),
{
    if s.len() == 0 {
        s
    } else if s[0] == ' ' {
        without_spaces(s.drop_first())
    } else {
        seq![s[0]] + without_spaces(s.drop_first())
    }
}

proof fn lemma_scan_digits(d: Seq<char>, t: Seq<char>, acc: Seq<char>, spaces: nat)
    requires
        all_digits(d),
    ensures
        scan_number(d + t, acc, spaces) == scan_number(t, acc + d, spaces),
    decreases d.len(),
{
    if d.len() == 0 {
        assert(d + t =~= t);
        assert(acc + d =~= acc);
    } else {
        assert((d + t)[0] == d[0]);
        assert((d + t).drop_first() =~= d.drop_first() + t);
        assert(is_digit(d[0]));
        lemma_scan_digits(d.drop_first(), t, acc.push(d[0]), spaces);
        assert(acc.push(d[0]) + d.drop_first() =~= acc + d);
    }
}

proof fn lemma_scan_word(w: Seq<char>, t: Seq<char>, strict: bool, name: Seq<char>, names: Seq<Seq<char>>)
    requires
        forall|i: int| 0 <= i < w.len() ==> is_name_char(#[trigger] w[i]),
    ensures
        scan_names(w + t, strict, name, names) == scan_names(t, strict, name + w, names),
    decreases w.len(),
{
    if w.len() == 0 {
        assert(w + t =~= t);
        assert(name + w =~= name);
    } else {
        assert((w + t)[0] == w[0]);
        assert((w + t).drop_first() =~= w.drop_first() + t);
        assert(is_name_char(w[0]));
        lemma_scan_word(w.drop_first(), t, strict, name.push(w[0]), names);
        assert(name.push(w[0]) + w.drop_first() =~= name + w);
    }
}

proof fn lemma_scan_joined(names: Seq<Seq<char>>, done: Seq<Seq<char>>)
    requires
        names.len() > 0,
        forall|i: int| 0 <= i < names.len() ==> is_name(#[trigger] names[i]),
    ensures
        scan_names(join_names(names), true, Seq::empty(), done) == Ok::<
            Seq<Seq<char>>,
            crate::line_names::LineError,
        >(done + names),
    decreases names.len(),
{
    let first = names[0];
    assert(is_name(first));
    if names.len() == 1 {
        lemma_scan_word(first, Seq::empty(), true, Seq::empty(), done);
        assert(first + Seq::<char>::empty() =~= first);
        assert(Seq::<char>::empty() + first =~= first);
        assert(done.push(first) =~= done + names);
    } else {
        let rest = join_names(names.drop_first());
        let sep = ", "@;
        reveal_strlit(", ");
        assert(join_names(names) == first + sep + rest);
        assert(first + sep + rest =~= first + (sep + rest));
        lemma_scan_word(first, sep + rest, true, Seq::empty(), done);
        assert(Seq::<char>::empty() + first =~= first);
        assert((sep + rest)[0] == ',');
        assert((sep + rest)[1] == ' ');
        assert((sep + rest).skip(2) =~= rest);
        lemma_scan_joined(names.drop_first(), done.push(first));
        assert(done.push(first) + names.drop_first() =~= done + names);
    }
}

/// A strict line written exactly as `N : a, b, c` (the record's own text)
/// parses back to the number and the names.
pub proof fn lemma_strict_rendered_line_parses(n: nat, names: Seq<Seq<char>>)
    requires
        n <= usize::MAX,
        names.len() > 0,
        forall|i: int| 0 <= i < names.len() ==> is_name(#[trigger] names[i]),
    ensures
        line_spec(render(n, names), true) == Ok::<
            (nat, Seq<Seq<char>>),
            crate::line_names::LineError,
        >((n, names)),
{
    let d = decimal(n);
    let j = join_names(names);
    let mid = " : "@;
    reveal_strlit(" : ");
    lemma_decimal(n);
    assert(render(n, names) =~= d + (mid + j));
    lemma_scan_digits(d, mid + j, Seq::empty(), 0);
    assert(Seq::<char>::empty() + d =~= d);
    let t = mid + j;
    assert(t[0] == ' ');
    assert(t.drop_first()[0] == ':');
    assert(t.drop_first().drop_first() =~= " "@ + j) by {
        reveal_strlit(" ");
    }
    assert(scan_number(t, d, 0) == scan_number(t.drop_first(), d, 1));
    let r = t.drop_first().drop_first();
    assert(r[0] == ' ') by {
        reveal_strlit(" ");
    }
    assert(r.drop_first() =~= j) by {
        reveal_strlit(" ");
    }
    lemma_scan_joined(names, Seq::empty());
    assert(Seq::<Seq<char>>::empty() + names =~= names);
}

proof fn lemma_number_without_spaces(s: Seq<char>, d: Seq<char>, k1: nat, k2: nat)
    ensures
        match scan_number(s, d, k1) {
            Err(e) => scan_number(without_spaces(s), d, k2) == Err::<(Seq<char>, nat, Seq<char>), crate::line_names::LineError>(e),
            Ok((digits, _, rest)) => scan_number(without_spaces(s), d, k2) is Ok && scan_number(
                without_spaces(s),
                d,
                k2,
            )->Ok_0.0 == digits && scan_number(without_spaces(s), d, k2)->Ok_0.2
                == without_spaces(rest),
        },
    decreases s.len(),
{
    if s.len() > 0 {
        let c = s[0];
        let w = without_spaces(s);
        if c == ' ' {
            lemma_number_without_spaces(s.drop_first(), d, k1 + 1, k2);
        } else {
            assert(w[0] == c);
            assert(w.drop_first() =~= without_spaces(s.drop_first()));
            if is_digit(c) {
                lemma_number_without_spaces(s.drop_first(), d.push(c), k1, k2);
            }
        }
    }
}

proof fn lemma_names_without_spaces(
    s: Seq<char>,
    name: Seq<char>,
    names: Seq<Seq<char>>,
)
    ensures
        scan_names(s, false, name, names) == scan_names(without_spaces(s), false, name, names),
    decreases s.len(),
{
    if s.len() > 0 {
        let c = s[0];
        let w = without_spaces(s);
        if c == ' ' {
            lemma_names_without_spaces(s.drop_first(), name, names);
        } else {
            assert(w[0] == c);
            assert(w.drop_first() =~= without_spaces(s.drop_first()));
            if c == ',' {
                lemma_names_without_spaces(s.drop_first(), Seq::empty(), names.push(name));
            } else if is_name_char(c) {
                lemma_names_without_spaces(s.drop_first(), name.push(c), names);
            }
        }
    }
}

/// In lenient mode spaces count for nothing: a line parses exactly as the same
/// line with every space taken out, so spaces added around the colon, after
/// commas or between names change neither the number nor the names.
pub proof fn lemma_lenient_ignores_spaces(s: Seq<char>)
    ensures
        line_spec(s, false) == line_spec(without_spaces(s), false),
{
    lemma_number_without_spaces(s, Seq::empty(), 0, 0);
    match scan_number(s, Seq::empty(), 0) {
        Err(_) => {},
        Ok((digits, _, rest)) => {
            lemma_names_without_spaces(rest, Seq::empty(), Seq::empty());
        },
    }
}

} // verus!
