//! One line of a names file: `12 : foo, bar`.
use vstd::prelude::*;
use vstd::std_specs::iter::IteratorSpec;
use crate::text::{
    decimal, digits_value, is_digit, is_name_char, is_alphanumeric, push_char,
    push_decimal,
};

verus! {

broadcast use vstd::string::group_string_axioms;

/// Why a line does not parse.
#[derive(Clone, Copy, Debug, PartialEq, Eq, Structural)]
pub enum LineError {
    /// A character other than a digit, a space or the colon before the colon.
    NumberChar(char),
    /// Strict mode: not exactly one space before the colon.
    SpacesBeforeColon(usize),
    /// Strict mode: the colon is not followed by a space.
    NoSpaceAfterColon,
    /// No digit before the colon.
    EmptyNumber,
    /// The line number does not fit in `usize`.
    NumberTooLarge,
    /// A comma with no name before it.
    CommaWithoutName,
    /// Strict mode: a comma not followed by a space.
    NoSpaceAfterComma,
    /// Strict mode: a space where none belongs among the names.
    TooManySpaces,
    /// A character that cannot stand among the names.
    NameChar(char),
    /// The line ends where a name is due.
    EndBeforeName,
}

/// The text that reports an error.
pub open spec fn message_of(e: LineError) -> Seq<char> {
    match e {
        LineError::NumberChar(c) => "Unexpected char '"@.push(c) + "' in line-number"@,
        LineError::SpacesBeforeColon(n) => "Got "@ + decimal(n as nat)
            + " spaces before colon but expected 1"@,
        LineError::NoSpaceAfterColon => "Expect one space after colon"@,
        LineError::EmptyNumber => "cannot parse integer from empty string"@,
        LineError::NumberTooLarge => "number too large to fit in target type"@,
        LineError::CommaWithoutName => "Got comma but expect a function name"@,
        LineError::NoSpaceAfterComma => "Expect space after comma"@,
        LineError::TooManySpaces => "Too much spaces in function names"@,
        LineError::NameChar(c) => "Unexpected char '"@.push(c) + "' in function names"@,
        LineError::EndBeforeName => "Unexpected End-Of-Line before a function name"@,
    }
}

impl LineError {
    /// The text that reports this error.
    pub fn message(&self) -> (r: String)
        ensures
            r@ == message_of(*self),
    {
        match self {
            LineError::NumberChar(c) => {
                let mut m = String::from_str("Unexpected char '");
                push_char(&mut m, *c);
                m.append("' in line-number");
                m
            },
            LineError::SpacesBeforeColon(n) => {
                let mut m = String::from_str("Got ");
                push_decimal(&mut m, *n);
                m.append(" spaces before colon but expected 1");
                m
            },
            LineError::NoSpaceAfterColon => String::from_str("Expect one space after colon"),
            LineError::EmptyNumber => String::from_str("cannot parse integer from empty string"),
            LineError::NumberTooLarge => String::from_str("number too large to fit in target type"),
            LineError::CommaWithoutName => String::from_str("Got comma but expect a function name"),
            LineError::NoSpaceAfterComma => String::from_str("Expect space after comma"),
            LineError::TooManySpaces => String::from_str("Too much spaces in function names"),
            LineError::NameChar(c) => {
                let mut m = String::from_str("Unexpected char '");
                push_char(&mut m, *c);
                m.append("' in function names");
                m
            },
            LineError::EndBeforeName => String::from_str(
                "Unexpected End-Of-Line before a function name",
            ),
        }
    }
}

/// Scans the line-number field: digits are kept, spaces counted, and the colon
/// ends the field. Gives the digits, the space count and what follows the colon
/// (nothing when there is no colon).
pub open spec fn scan_number(rest: Seq<char>, digits: Seq<char>, spaces: nat) -> Result<
    (Seq<char>, nat, Seq<char>),
    LineError,
>
    decreases rest.len(),
{
    if rest.len() == 0 {
        Ok((digits, spaces, rest))
    } else {
        let c = rest[0];
        if is_digit(c) {
            scan_number(rest.drop_first(), digits.push(c), spaces)
        } else if c == ':' {
            Ok((digits, spaces, rest.drop_first()))
        } else if c == ' ' {
            scan_number(rest.drop_first(), digits, spaces + 1)
        } else {
            Err(LineError::NumberChar(c))
        }
    }
}

/// Scans the name list, with `name` the name being read and `names` those done.
pub open spec fn scan_names(
    rest: Seq<char>,
    strict: bool,
    name: Seq<char>,
    names: Seq<Seq<char>>,
) -> Result<Seq<Seq<char>>, LineError>
    decreases rest.len(),
{
    if rest.len() == 0 {
        if name.len() == 0 {
            Err(LineError::EndBeforeName)
        } else {
            Ok(names.push(name))
        }
    } else {
        let c = rest[0];
        if c == ',' {
            if name.len() == 0 {
                Err(LineError::CommaWithoutName)
            } else if !strict {
                scan_names(rest.drop_first(), strict, Seq::empty(), names.push(name))
            } else if rest.len() > 1 && rest[1] == ' ' {
                scan_names(rest.skip(2), strict, Seq::empty(), names.push(name))
            } else {
                Err(LineError::NoSpaceAfterComma)
            }
        } else if c == ' ' {
            if strict {
                Err(LineError::TooManySpaces)
            } else {
                scan_names(rest.drop_first(), strict, name, names)
            }
        } else if is_name_char(c) {
            scan_names(rest.drop_first(), strict, name.push(c), names)
        } else {
            Err(LineError::NameChar(c))
        }
    }
}

/// What a line parses to: its number and its names, or the first error.
pub open spec fn line_spec(s: Seq<char>, strict: bool) -> Result<(nat, Seq<Seq<char>>), LineError> {
    match scan_number(s, Seq::empty(), 0) {
        Err(e) => Err(e),
        Ok((digits, spaces, rest)) => {
            if strict && spaces != 1 {
                Err(LineError::SpacesBeforeColon(spaces as usize))
            } else if strict && !(rest.len() > 0 && rest[0] == ' ') {
                Err(LineError::NoSpaceAfterColon)
            } else if digits.len() == 0 {
                Err(LineError::EmptyNumber)
            } else if digits_value(digits) > usize::MAX {
                Err(LineError::NumberTooLarge)
            } else {
                let names_part = if strict {
                    rest.drop_first()
                } else {
                    rest
                };
                match scan_names(names_part, strict, Seq::empty(), Seq::empty()) {
                    Err(e) => Err(e),
                    Ok(names) => Ok((digits_value(digits), names)),
                }
            }
        },
    }
}

/// A line number and the names listed on that line.
pub struct LineNames {
    pub number: usize,
    pub names: Vec<String>,
}

/// The text of each string.
pub open spec fn texts(v: Seq<String>) -> Seq<Seq<char>> {
    v.map_values(|n: String| n@)
}

impl LineNames {
    /// The names as character sequences, in order.
    pub open spec fn name_seqs(&self) -> Seq<Seq<char>> {
        texts(self.names@)
    }

    /// A record with the given number and no names yet.
    pub fn new(number: usize) -> (r: Self)
        ensures
            r.number == number,
            r.name_seqs() == Seq::<Seq<char>>::empty(),
    {
        let r = Self { number, names: Vec::new() };
        assert(r.name_seqs() =~= Seq::<Seq<char>>::empty());
        r
    }

    /// Appends a name.
    pub fn add_name(&mut self, name: &str)
        ensures
            final(self).number == old(self).number,
            final(self).name_seqs() == old(self).name_seqs().push(name@),
    {
        self.names.push(name.to_owned());
        assert(self.name_seqs() =~= old(self).name_seqs().push(name@));
    }

    /// Parses one line; `strict` asks for exactly one space around the colon
    /// and after each comma, and for none elsewhere.
    pub fn parse(s: &str, strict: bool) -> (r: Result<Self, LineError>)
        ensures
            match line_spec(s@, strict) {
                Ok((n, names)) => r is Ok && r->Ok_0.number as nat == n && r->Ok_0.name_seqs()
                    == names,
                Err(e) => r is Err && r->Err_0 == e,
            },
    {
        // The character count bounds the space counter below.
        let n_chars: usize = s.unicode_len();
        let mut it = s.chars();
        let ghost seen = Seq::<char>::empty();
        let ghost digits = Seq::<char>::empty();
        let mut value: usize = 0;
        let mut too_large = false;
        let mut has_digits = false;
        let mut spaces: usize = 0;
        loop
            invariant_except_break
                scan_number(it.remaining(), digits, spaces as nat) == scan_number(
                    s@,
                    Seq::empty(),
                    0,
                ),
            invariant
                seen + it.remaining() == s@,
                it.decrease() is Some,
                n_chars == s@.len(),
                spaces <= seen.len(),
                has_digits == (digits.len() > 0),
                too_large == (digits_value(digits) > usize::MAX),
                !too_large ==> value == digits_value(digits),
            ensures
                scan_number(s@, Seq::empty(), 0) == Ok::<_, LineError>(
                    (digits, spaces as nat, it.remaining()),
                ),
            decreases it.decrease()->0,
        {
            let ghost before = it.remaining();
            match it.next() {
                None => {
                    break ;
                },
                Some(c) => {
                    proof {
                        seen = seen.push(c);
                        assert(seen + it.remaining() =~= s@);
                    }
                    if '0' <= c && c <= '9' {
                        has_digits = true;
                        let d = (c as u32 - '0' as u32) as usize;
                        proof {
                            assert(digits.push(c).drop_last() == digits);
                            let v = digits_value(digits);
                            assert(digits_value(digits.push(c)) == v * 10 + d);
                            if v > usize::MAX {
                                assert(v * 10 + d > usize::MAX) by (nonlinear_arith)
                                    requires v > usize::MAX;
                            }
                        }
                        if !too_large {
                            if value > (usize::MAX - d) / 10 {
                                assert(value * 10 + d > usize::MAX) by (nonlinear_arith)
                                    requires value > (usize::MAX - d) / 10, d < 10;
                                too_large = true;
                            } else {
                                assert(value * 10 + d <= usize::MAX) by (nonlinear_arith)
                                    requires value <= (usize::MAX - d) / 10, d < 10;
                                value = value * 10 + d;
                            }
                        }
                        proof {
                            digits = digits.push(c);
                        }
                    } else if c == ':' {
                        break ;
                    } else if c == ' ' {
                        spaces = spaces + 1;
                    } else {
                        return Err(LineError::NumberChar(c));
                    }
                },
            }
        }
        let ghost rest = it.remaining();
        if strict {
            if spaces != 1 {
                return Err(LineError::SpacesBeforeColon(spaces));
            }
            match it.next() {
                Some(c) => {
                    if c != ' ' {
                        return Err(LineError::NoSpaceAfterColon);
                    }
                },
                None => {
                    return Err(LineError::NoSpaceAfterColon);
                },
            }
        }
        if !has_digits {
            return Err(LineError::EmptyNumber);
        }
        if too_large {
            return Err(LineError::NumberTooLarge);
        }
        let ghost names_part = it.remaining();
        assert(names_part == if strict {
            rest.drop_first()
        } else {
            rest
        });
        let ghost line = match scan_names(names_part, strict, Seq::empty(), Seq::empty()) {
            Err(e) => Err(e),
            Ok(names) => Ok((value as nat, names)),
        };
        assert(line_spec(s@, strict) == line);
        let mut result = Self::new(value);
        let mut name = String::new();
        loop
            invariant
                line_spec(s@, strict) == line,
                line == match scan_names(names_part, strict, Seq::empty(), Seq::empty()) {
                    Err(e) => Err(e),
                    Ok(names) => Ok((value as nat, names)),
                },
                it.decrease() is Some,
                result.number == value,
                scan_names(it.remaining(), strict, name@, result.name_seqs()) == scan_names(
                    names_part,
                    strict,
                    Seq::empty(),
                    Seq::empty(),
                ),
            decreases it.decrease()->0,
        {
            let ghost before = it.remaining();
            match it.next() {
                None => {
                    if name.as_str().is_empty() {
                        return Err(LineError::EndBeforeName);
                    }
                    result.add_name(name.as_str());
                    return Ok(result);
                },
                Some(c) => {
                    if c == ',' {
                        if name.as_str().is_empty() {
                            return Err(LineError::CommaWithoutName);
                        }
                        result.add_name(name.as_str());
                        name = String::new();
                        if strict {
                            match it.next() {
                                Some(c2) => {
                                    if c2 != ' ' {
                                        return Err(LineError::NoSpaceAfterComma);
                                    }
                                    assert(it.remaining() =~= before.skip(2));
                                },
                                None => {
                                    return Err(LineError::NoSpaceAfterComma);
                                },
                            }
                        }
                    } else if c == ' ' {
                        if strict {
                            return Err(LineError::TooManySpaces);
                        }
                    } else if is_alphanumeric(c) || c == '_' {
                        push_char(&mut name, c);
                    } else {
                        return Err(LineError::NameChar(c));
                    }
                },
            }
        }
    }

    /// Parses one line, reporting an error by its text.
    pub fn parse_from_str(s: &str, strict: bool) -> (r: Result<Self, String>)
        ensures
            match line_spec(s@, strict) {
                Ok((n, names)) => r is Ok && r->Ok_0.number as nat == n && r->Ok_0.name_seqs()
                    == names,
                Err(e) => r is Err && r->Err_0@ == message_of(e),
            },
    {
        match Self::parse(s, strict) {
            Ok(v) => Ok(v),
            Err(e) => Err(e.message()),
        }
    }
}

/// Whether two lists hold the same names, each as often, in any order.
pub fn same_names(a: &Vec<String>, b: &Vec<String>) -> (r: bool)
    ensures
        r == (texts(a@).to_multiset() == texts(b@).to_multiset()),
{
    broadcast use vstd::seq_lib::group_to_multiset_ensures;
    broadcast use vstd::multiset::group_multiset_axioms;

    let ghost big_a = texts(a@);
    let ghost big_b = texts(b@);
    let mut rest: Vec<String> = Vec::new();
    let mut j: usize = 0;
    while j < b.len()
        invariant
            j <= b.len(),
            texts(rest@) == big_b.take(j as int),
            big_b == texts(b@),
        decreases b.len() - j,
    {
        let name: String = b[j].clone();
        let ghost before = rest@;
        rest.push(name);
        proof {
            assert(rest@ == before.push(b@[j as int]));
            assert(texts(rest@) =~= texts(before).push(big_b[j as int]));
            assert(big_b.take(j + 1) =~= big_b.take(j as int).push(big_b[j as int]));
        }
        j = j + 1;
    }
    assert(big_b.take(b.len() as int) =~= big_b);
    assert(big_a.take(0) =~= Seq::<Seq<char>>::empty());
    let mut i: usize = 0;
    while i < a.len()
        invariant
            i <= a.len(),
            big_a == texts(a@),
            big_b == texts(b@),
            big_a.take(i as int).to_multiset().add(texts(rest@).to_multiset())
                == big_b.to_multiset(),
        decreases a.len() - i,
    {
        let ghost x = big_a[i as int];
        let ghost big_r = texts(rest@);
        let mut k: usize = 0;
        while k < rest.len()
            invariant
                k <= rest.len(),
                i < a.len(),
                x == a[i as int]@,
                big_r == texts(rest@),
                forall|m: int| 0 <= m < k ==> rest[m]@ != x,
            ensures
                k <= rest.len(),
                k < rest.len() ==> rest[k as int]@ == x,
                forall|m: int| 0 <= m < k ==> rest[m]@ != x,
            decreases rest.len() - k,
        {
            if rest[k] == a[i] {
                break ;
            }
            k = k + 1;
        }
        assert(big_a.take(i + 1) =~= big_a.take(i as int).push(x));
        if k == rest.len() {
            proof {
                assert(!big_r.contains(x));
                vstd::seq_lib::to_multiset_contains(big_r, x);
                assert(big_a =~= big_a.take(i + 1) + big_a.skip(i + 1));
                vstd::seq_lib::lemma_multiset_commutative(big_a.take(i + 1), big_a.skip(i + 1));
                let before = big_a.take(i as int).to_multiset();
                vstd::seq_lib::to_multiset_build(big_a.take(i as int), x);
                assert(big_b.to_multiset().count(x) == before.count(x));
                assert(big_a.to_multiset().count(x) >= before.count(x) + 1);
            }
            return false;
        }
        rest.remove(k);
        proof {
            assert(big_r[k as int] == x);
            assert(big_r.contains(x));
            vstd::seq_lib::to_multiset_contains(big_r, x);
            assert(texts(rest@) =~= big_r.remove(k as int));
            vstd::seq_lib::to_multiset_remove(big_r, k as int);
            vstd::seq_lib::to_multiset_build(big_a.take(i as int), x);
            assert(big_a.take(i + 1).to_multiset().add(texts(rest@).to_multiset())
                =~= big_b.to_multiset());
        }
        i = i + 1;
    }
    proof {
        let big_r = texts(rest@);
        assert(big_a.take(a.len() as int) =~= big_a);
        vstd::seq_lib::to_multiset_len(big_a);
        vstd::seq_lib::to_multiset_len(big_b);
        vstd::seq_lib::to_multiset_len(big_r);
        if rest.len() == 0 {
            assert(big_r =~= Seq::<Seq<char>>::empty());
            assert(big_a.to_multiset().add(big_r.to_multiset()) =~= big_a.to_multiset());
        }
    }
    rest.len() == 0
}

impl PartialEq for LineNames {
    fn eq(&self, other: &Self) -> (r: bool)
        ensures
            r == records_match(*self, *other),
    {
        self.number == other.number && same_names(&self.names, &other.names)
    }
}

impl vstd::std_specs::cmp::PartialEqSpecImpl for LineNames {
    open spec fn obeys_eq_spec() -> bool {
        true
    }

    open spec fn eq_spec(&self, other: &LineNames) -> bool {
        records_match(*self, *other)
    }
}

/// Two records are equal when their numbers are, and their names are as
/// multisets: the order does not count, repetitions do.
pub open spec fn records_match(a: LineNames, b: LineNames) -> bool {
    a.number == b.number && a.name_seqs().to_multiset() == b.name_seqs().to_multiset()
}

/// The names joined by a comma and a space.
pub open spec fn join_names(names: Seq<Seq<char>>) -> Seq<char>
    decreases names.len(),
{
    if names.len() == 0 {
        Seq::empty()
    } else if names.len() == 1 {
        names[0]
    } else {
        names[0] + ", "@ + join_names(names.drop_first())
    }
}

/// The text of a record: `<number> : <name>, <name>, ...`.
pub open spec fn render(number: nat, names: Seq<Seq<char>>) -> Seq<char> {
    decimal(number) + " : "@ + join_names(names)
}

/// Joining one more name adds a separator and the name.
pub proof fn lemma_join_push(names: Seq<Seq<char>>, x: Seq<char>)
    requires
        names.len() >= 1,
    ensures
        join_names(names.push(x)) == join_names(names) + ", "@ + x,
    decreases names.len(),
{
    if names.len() == 1 {
        assert(names.push(x).drop_first() =~= seq![x]);
        assert(join_names(seq![x]) == x);
        assert(join_names(names.push(x)) == names[0] + ", "@ + x);
    } else {
        lemma_join_push(names.drop_first(), x);
        assert(names.push(x).drop_first() =~= names.drop_first().push(x));
        assert(join_names(names.push(x)) =~= join_names(names) + ", "@ + x);
    }
}

impl LineNames {
    /// The record's text, names in their order.
    pub fn to_text(&self) -> (r: String)
        ensures
            r@ == render(self.number as nat, self.name_seqs()),
    {
        let mut out = String::new();
        push_decimal(&mut out, self.number);
        out.append(" : ");
        let ghost head = decimal(self.number as nat) + " : "@;
        assert(out@ =~= head);
        assert(self.name_seqs().take(0) =~= Seq::<Seq<char>>::empty());
        let mut i: usize = 0;
        while i < self.names.len()
            invariant
                i <= self.names.len(),
                out@ == head + join_names(self.name_seqs().take(i as int)),
            decreases self.names.len() - i,
        {
            let ghost done = self.name_seqs().take(i as int);
            if i > 0 {
                out.append(", ");
            }
            out.append(self.names[i].as_str());
            proof {
                let x = self.name_seqs()[i as int];
                assert(self.name_seqs().take(i + 1) =~= done.push(x));
                if i > 0 {
                    lemma_join_push(done, x);
                } else {
                    assert(done.push(x) =~= seq![x]);
                }
                assert(out@ =~= head + join_names(self.name_seqs().take(i + 1)));
            }
            i = i + 1;
        }
        assert(self.name_seqs().take(self.names.len() as int) =~= self.name_seqs());
        out
    }
}

impl std::str::FromStr for LineNames {
    type Err = String;

    /// Parses a line leniently.
    fn from_str(s: &str) -> Result<Self, String> {
        Self::parse_from_str(s, false)
    }
}

} // verus!
