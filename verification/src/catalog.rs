//! Loading the recipe catalog from flat text: one recipe per line, six
//! comma-separated fields — `name,water,milk,beans,cups,cost` — each trimmed
//! of surrounding whitespace. A malformed line fails the whole load; fields
//! beyond the sixth are ignored.

use vstd::prelude::*;

use crate::coffee::Coffee;
use crate::input::{is_numeral, numeral_val, parse_number, trim_of, trimmed};

verus! {

/// The catalog text was malformed: a line with fewer than six fields, or a
/// numeric field that is not a decimal numeral fitting the machine word.
#[derive(Clone, Copy, Debug, PartialEq, Eq, Structural)]
pub struct CatalogLoadError;

/// The position of the first comma, or `-1` when there is none.
pub open spec fn find_comma(s: Seq<char>) -> int
    decreases s.len(),
{
    if s.len() == 0 {
        -1
    } else if s[0] == ',' {
        0
    } else {
        let r = find_comma(s.drop_first());
        if r < 0 {
            -1
        } else {
            r + 1
        }
    }
}

/// The comma-separated fields of a line, commas excluded; always at least
/// one field.
pub open spec fn split_commas(s: Seq<char>) -> Seq<Seq<char>>
    decreases s.len(),
{
    let k = find_comma(s);
    if 0 <= k < s.len() {
        seq![s.take(k)] + split_commas(s.skip(k + 1))
    } else {
        seq![s]
    }
}

/// A trimmed field holding a decimal numeral that fits the machine word.
pub open spec fn is_count(t: Seq<char>) -> bool {
    is_numeral(t) && numeral_val(t) <= usize::MAX
}

/// A well-formed catalog line: at least six fields, the second through sixth
/// numeric once trimmed.
pub open spec fn line_ok(line: Seq<char>) -> bool {
    let f = split_commas(line);
    f.len() >= 6 && is_count(trim_of(f[1])) && is_count(trim_of(f[2])) && is_count(trim_of(f[3]))
        && is_count(trim_of(f[4])) && is_count(trim_of(f[5]))
}

/// The recipe a well-formed line describes.
pub open spec fn recipe_matches(line: Seq<char>, c: Coffee) -> bool {
    let f = split_commas(line);
    c.name@ == trim_of(f[0]) && c.water == numeral_val(trim_of(f[1])) && c.milk == numeral_val(
        trim_of(f[2]),
    ) && c.beans == numeral_val(trim_of(f[3])) && c.cups == numeral_val(trim_of(f[4])) && c.cost
        == numeral_val(trim_of(f[5]))
}

proof fn lemma_find_comma_at(s: Seq<char>, k: int)
    requires
        0 <= k < s.len(),
        s[k] == ',',
        forall|j: int| 0 <= j < k ==> s[j] != ',',
    ensures
        find_comma(s) == k,
    decreases k,
{
    if k > 0 {
        lemma_find_comma_at(s.drop_first(), k - 1);
    }
}

proof fn lemma_find_comma_none(s: Seq<char>)
    requires
        forall|j: int| 0 <= j < s.len() ==> s[j] != ',',
    ensures
        find_comma(s) == -1,
    decreases s.len(),
{
    if s.len() > 0 {
        lemma_find_comma_none(s.drop_first());
    }
}

/// The field starting at `p` (commas excluded), where the remainder starts,
/// and whether a comma ended the field — so whether more fields follow.
fn next_field<'a>(line: &'a str, p: usize) -> (ret: (&'a str, usize, bool))
    requires
        p <= line@.len(),
    ensures
        ret.1 <= line@.len(),
        ret.2 ==> split_commas(line@.skip(p as int)) == seq![ret.0@] + split_commas(
            line@.skip(ret.1 as int),
        ),
        !ret.2 ==> split_commas(line@.skip(p as int)) == seq![ret.0@],
{
    let n = line.unicode_len();
    let mut i: usize = p;
    while i < n && line.get_char(i) != ','
        invariant
            n == line@.len(),
            p <= i <= n,
            forall|j: int| p <= j < i ==> line@[j] != ',',
        decreases n - i,
    {
        i = i + 1;
    }
    let field = line.substring_char(p, i);
    let ghost ss = line@.skip(p as int);
    proof {
        assert(ss.len() == n - p);
        assert forall|j: int| 0 <= j < i - p implies ss[j] != ',' by {
            assert(ss[j] == line@[p + j]);
        }
        assert(ss.take(i - p) =~= line@.subrange(p as int, i as int));
    }
    if i < n {
        proof {
            assert(ss[i - p] == line@[i as int]);
            lemma_find_comma_at(ss, i - p);
            assert(ss.skip(i - p + 1) =~= line@.skip(i as int + 1));
        }
        (field, i + 1, true)
    } else {
        proof {
            lemma_find_comma_none(ss);
            assert(ss =~= line@.subrange(p as int, n as int));
        }
        (field, n, false)
    }
}

/// Parses one catalog line into a recipe: the name trimmed, the five numeric
/// fields trimmed and read in base ten. `None` iff the line is malformed.
pub fn parse_recipe(line: &str) -> (r: Option<Coffee>)
    ensures
        r is Some <==> line_ok(line@),
        r matches Some(c) ==> recipe_matches(line@, c),
{
    let ghost fields = split_commas(line@);
    proof {
        assert(line@.skip(0) =~= line@);
    }
    let (f0, p1, more1) = next_field(line, 0);
    if !more1 {
        return None;
    }
    let (f1, p2, more2) = next_field(line, p1);
    if !more2 {
        return None;
    }
    let (f2, p3, more3) = next_field(line, p2);
    if !more3 {
        return None;
    }
    let (f3, p4, more4) = next_field(line, p3);
    if !more4 {
        return None;
    }
    let (f4, p5, more5) = next_field(line, p4);
    if !more5 {
        return None;
    }
    let (f5, _p6, _more6) = next_field(line, p5);
    proof {
        assert(fields[0] == f0@);
        assert(fields[1] == f1@);
        assert(fields[2] == f2@);
        assert(fields[3] == f3@);
        assert(fields[4] == f4@);
        assert(fields[5] == f5@);
        assert(fields.len() >= 6);
    }
    let name = trimmed(f0).to_owned();
    let water = match parse_number(trimmed(f1)) {
        Some(v) => v,
        None => {
            return None;
        },
    };
    let milk = match parse_number(trimmed(f2)) {
        Some(v) => v,
        None => {
            return None;
        },
    };
    let beans = match parse_number(trimmed(f3)) {
        Some(v) => v,
        None => {
            return None;
        },
    };
    let cups = match parse_number(trimmed(f4)) {
        Some(v) => v,
        None => {
            return None;
        },
    };
    let cost = match parse_number(trimmed(f5)) {
        Some(v) => v,
        None => {
            return None;
        },
    };
    Some(Coffee::new(name, water, milk, beans, cups, cost))
}

/// Parses the whole catalog: a complete list of recipes, or a single fatal
/// error when any line is malformed — no partial catalog.
pub fn parse_coffees(lines: &Vec<String>) -> (r: Result<Vec<Coffee>, CatalogLoadError>)
    ensures
        r is Ok <==> (forall|i: int| 0 <= i < lines@.len() ==> line_ok(lines@[i]@)),
        r matches Ok(cs) ==> cs@.len() == lines@.len() && (forall|i: int|
            0 <= i < lines@.len() ==> recipe_matches(lines@[i]@, cs@[i])),
{
    let mut coffees: Vec<Coffee> = Vec::with_capacity(lines.len());
    let mut idx: usize = 0;
    while idx < lines.len()
        invariant
            idx <= lines@.len(),
            coffees@.len() == idx,
            forall|i: int| 0 <= i < idx ==> line_ok(lines@[i]@),
            forall|i: int| 0 <= i < idx ==> recipe_matches(lines@[i]@, coffees@[i]),
        decreases lines@.len() - idx,
    {
        match parse_recipe(lines[idx].as_str()) {
            Some(c) => {
                coffees.push(c);
            },
            None => {
                return Err(CatalogLoadError);
            },
        }
        idx = idx + 1;
    }
    Ok(coffees)
}

} // verus!
