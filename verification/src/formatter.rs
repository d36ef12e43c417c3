//! Formatters: pure transforms from parsed output lines, plus an optional
//! parameter set, to an optional display string.
//!
//! Each metric is displayed through one formatter, fixed when a backend
//! catalog is built. A formatter reads the first line only; formatting
//! fails (yields `None`) when that line does not parse as the formatter
//! requires, never with an error.

use crate::numeric::{
    dec_fahrenheit, dec_fahrenheit_str, dec_floor, dec_floor_str, dec_in_range, i64_to_string,
    int_repr,
};
use crate::text::{split_seq, split_str};
use vstd::prelude::*;
use vstd::string::*;

verus! {

/// One display transform, chosen per metric at catalog construction time.
#[derive(Clone, Copy)]
pub enum Formatter {
    /// The first line unchanged.
    Identity,
    /// The first line with ` %` appended.
    Percentage,
    /// The first line with ` MiB` appended.
    MemorySize,
    /// The first line parsed as a decimal, floored, with ` W` appended.
    Power,
    /// The first line as a temperature: Celsius appends a degree sign and
    /// `C` verbatim; Fahrenheit parses the line, converts and floors.
    Temperature,
    /// The value after `=` in the field at `index` of the first line split
    /// on `, `, with ` %` appended (the `nvidia-settings` utilization
    /// report, e.g. `graphics=2, memory=1`).
    FieldPercentage { index: usize },
}

/// True when `ps` holds the pair (`k`, `v`).
pub open spec fn contains_pair(ps: Seq<(Seq<char>, Seq<char>)>, k: Seq<char>, v: Seq<char>) -> bool {
    exists|i: int| 0 <= i < ps.len() && ps[i].0 == k && ps[i].1 == v
}

/// True when the parameters select Fahrenheit: a `tempformat` of `F` and no
/// `tempformat` of `C` (which takes precedence). Absent parameters, or any
/// other value, select Celsius.
pub open spec fn wants_fahrenheit(params: Option<Seq<(Seq<char>, Seq<char>)>>) -> bool {
    match params {
        None => false,
        Some(ps) => !contains_pair(ps, "tempformat"@, "C"@) && contains_pair(
            ps,
            "tempformat"@,
            "F"@,
        ),
    }
}

/// The value after the first `=` in the field at `index` of `line` split on
/// `, `; `None` when the field or the `=` is missing.
pub open spec fn field_value(line: Seq<char>, index: int) -> Option<Seq<char>> {
    let fields = split_seq(line, ", "@);
    if 0 <= index < fields.len() {
        let parts = split_seq(fields[index], "="@);
        if parts.len() >= 2 {
            Some(parts[1])
        } else {
            None
        }
    } else {
        None
    }
}

/// What a formatter yields on given lines and parameters.
pub open spec fn apply_spec(
    f: Formatter,
    lines: Seq<Seq<char>>,
    params: Option<Seq<(Seq<char>, Seq<char>)>>,
) -> Option<Seq<char>> {
    if lines.len() == 0 {
        None
    } else {
        let first = lines[0];
        match f {
            Formatter::Identity => Some(first),
            Formatter::Percentage => Some(first + " %"@),
            Formatter::MemorySize => Some(first + " MiB"@),
            Formatter::Power => if dec_in_range(first) {
                Some(int_repr(dec_floor(first)) + " W"@)
            } else {
                None
            },
            Formatter::Temperature => if !wants_fahrenheit(params) {
                Some(first + "\u{00B0}C"@)
            } else if dec_in_range(first) {
                Some(int_repr(dec_fahrenheit(first)) + "\u{00B0}F"@)
            } else {
                None
            },
            Formatter::FieldPercentage { index } => match field_value(first, index as int) {
                Some(v) => Some(v + " %"@),
                None => None,
            },
        }
    }
}

/// True when `ps` holds the pair (`k`, `v`).
fn contains_param(ps: &Vec<(String, String)>, k: &String, v: &String) -> (r: bool)
    ensures
        r == contains_pair(ps.deep_view(), k@, v@),
{
    let mut i: usize = 0;
    while i < ps.len()
        invariant
            i <= ps.len(),
            forall|j: int|
                0 <= j < i ==> !(ps.deep_view()[j].0 == k@ && ps.deep_view()[j].1 == v@),
        decreases ps.len() - i,
    {
        let pair: &(String, String) = &ps[i];
        if pair.0.eq(k) && pair.1.eq(v) {
            proof {
                assert(ps.deep_view()[i as int].0 == k@ && ps.deep_view()[i as int].1 == v@);
            }
            return true;
        }
        proof {
            assert(ps.deep_view()[i as int] == (ps@[i as int].0@, ps@[i as int].1@));
        }
        i += 1;
    }
    false
}

/// True when the parameters select Fahrenheit, per [`wants_fahrenheit`].
fn fahrenheit_requested(params: &Option<Vec<(String, String)>>) -> (r: bool)
    ensures
        r == wants_fahrenheit(params.deep_view()),
{
    match params {
        None => false,
        Some(ps) => {
            let key: String = "tempformat".to_owned();
            let celsius: String = "C".to_owned();
            let fahrenheit: String = "F".to_owned();
            let has_c: bool = contains_param(ps, &key, &celsius);
            let has_f: bool = contains_param(ps, &key, &fahrenheit);
            !has_c && has_f
        },
    }
}

impl Formatter {
    /// Applies the transform to `lines` under `params`. Pure: the result is
    /// exactly [`apply_spec`] of the inputs, nothing else.
    pub fn apply(&self, lines: &Vec<String>, params: &Option<Vec<(String, String)>>) -> (r: Option<
        String,
    >)
        ensures
            r.deep_view() == apply_spec(*self, lines.deep_view(), params.deep_view()),
    {
        if lines.len() == 0 {
            return None;
        }
        let first: &String = &lines[0];
        proof {
            assert(lines.deep_view()[0] == first@);
        }
        match self {
            Formatter::Identity => Some(first.clone()),
            Formatter::Percentage => {
                let mut out: String = first.clone();
                out.append(" %");
                Some(out)
            },
            Formatter::MemorySize => {
                let mut out: String = first.clone();
                out.append(" MiB");
                Some(out)
            },
            Formatter::Power => {
                match dec_floor_str(first.as_str()) {
                    None => None,
                    Some(v) => {
                        let mut out: String = i64_to_string(v);
                        out.append(" W");
                        Some(out)
                    },
                }
            },
            Formatter::Temperature => {
                if !fahrenheit_requested(params) {
                    let mut out: String = first.clone();
                    out.append("\u{00B0}C");
                    Some(out)
                } else {
                    match dec_fahrenheit_str(first.as_str()) {
                        None => None,
                        Some(v) => {
                            let mut out: String = i64_to_string(v);
                            out.append("\u{00B0}F");
                            Some(out)
                        },
                    }
                }
            },
            Formatter::FieldPercentage { index } => {
                proof {
                    reveal_strlit(", ");
                    reveal_strlit("=");
                }
                let fields: Vec<String> = split_str(first.as_str(), ", ");
                if *index < fields.len() {
                    proof {
                        assert(fields.deep_view()[*index as int] == fields@[*index as int]@);
                    }
                    let parts: Vec<String> = split_str(fields[*index].as_str(), "=");
                    if parts.len() >= 2 {
                        proof {
                            assert(parts.deep_view()[1] == parts@[1]@);
                        }
                        let mut out: String = parts[1].clone();
                        out.append(" %");
                        Some(out)
                    } else {
                        None
                    }
                } else {
                    None
                }
            },
        }
    }
}

/// Law: formatting is pure. The displayed string is a function of the
/// formatter, the lines and the parameters alone, so repeated applications
/// on identical inputs yield identical output.
pub proof fn lemma_apply_pure(
    f: Formatter,
    lines: Seq<Seq<char>>,
    params: Option<Seq<(Seq<char>, Seq<char>)>>,
    r1: Option<Seq<char>>,
    r2: Option<Seq<char>>,
)
    requires
        r1 == apply_spec(f, lines, params),
        r2 == apply_spec(f, lines, params),
    ensures
        r1 == r2,
{
}

} // verus!
