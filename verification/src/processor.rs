//! Building one vendor-tool invocation and parsing what it prints.
//!
//! A [`Processor`] is an immutable command template: a base command and
//! three fixed fragments. A query fills in an optional device id and an
//! optional metric key, producing one command line that is split on single
//! spaces into an argument vector — fragments carry no quoting, so a
//! fragment with an interior space deliberately produces several tokens.
//! Execution is delegated to a caller-supplied [`Executor`]; the outcome is
//! classified from captured stdout alone (stderr is diagnostic only).

use crate::text::{lemma_split_seq_nonempty, split_seq, split_str};
use vstd::prelude::*;
use vstd::string::*;

verus! {

/// Failure to launch or wait on an external process.
#[derive(Debug)]
pub struct ExecutionError {
    pub message: String,
}

/// The process-execution collaborator: runs `argv` (program first, then its
/// arguments) synchronously and hands back captured stdout and stderr, each
/// absent when that stream was empty. The library promises nothing about
/// what an executor returns; every contract built on it holds for any
/// implementation.
pub trait Executor {
    fn run(&mut self, argv: &Vec<String>) -> Result<
        (Option<String>, Option<String>),
        ExecutionError,
    >;
}

/// An immutable command template for one vendor tool.
pub struct Processor {
    pub base_call: String,
    pub start_call: String,
    pub middle_call: Option<String>,
    pub end_call: String,
}

/// The assembled command line for one query. The `nvidia-settings` base
/// command uses the settings layout (device id right after the start
/// fragment, then the middle fragment, then the metric key); every other
/// base command uses the query layout (metric key after the start fragment,
/// the end fragment, then the device id).
pub open spec fn call_stack_spec(
    p: Processor,
    uuid: Option<Seq<char>>,
    property: Option<Seq<char>>,
) -> Seq<char> {
    let uuid_part: Seq<char> = match uuid {
        Some(u) => u,
        None => Seq::empty(),
    };
    let prop_part: Seq<char> = match property {
        Some(q) => q,
        None => Seq::empty(),
    };
    let middle_part: Seq<char> = match p.middle_call {
        Some(m) => m@,
        None => Seq::empty(),
    };
    if p.base_call@ == "nvidia-settings"@ {
        p.base_call@ + seq![' '] + p.start_call@ + uuid_part + middle_part + prop_part
            + p.end_call@
    } else {
        p.base_call@ + seq![' '] + p.start_call@ + prop_part + p.end_call@ + uuid_part
    }
}

/// The argument vector: the command line split on single spaces, with no
/// escaping; an empty command line yields no tokens.
pub open spec fn tokenize_spec(s: Seq<char>) -> Seq<Seq<char>> {
    if s.len() == 0 {
        Seq::empty()
    } else {
        split_seq(s, seq![' '])
    }
}

/// The argument vector of one query.
pub open spec fn invocation_spec(
    p: Processor,
    uuid: Option<Seq<char>>,
    property: Option<Seq<char>>,
) -> Seq<Seq<char>> {
    tokenize_spec(call_stack_spec(p, uuid, property))
}

/// A newline-terminated segment with a single carriage return stripped from
/// its end, so that `\r\n` and `\n` both end a line.
pub open spec fn strip_cr(seg: Seq<char>) -> Seq<char> {
    if seg.len() > 0 && seg.last() == '\r' {
        seg.drop_last()
    } else {
        seg
    }
}

/// Parsed output: the text split at newline boundaries, in order, where a
/// boundary is `\n` or `\r\n` (a carriage return right before each newline
/// is stripped). The final line ending is optional: the empty segment after
/// a trailing newline is discarded, and a last segment without a newline is
/// kept as it stands, carriage return included.
pub open spec fn parse_lines(s: Seq<char>) -> Seq<Seq<char>> {
    let segs = split_seq(s, seq!['\n']);
    let terminated = Seq::new((segs.len() - 1) as nat, |i: int| strip_cr(segs[i]));
    if segs.last().len() == 0 {
        terminated
    } else {
        terminated.push(segs.last())
    }
}

/// Outcome classification of one execution: empty (absent) stdout yields
/// nothing, non-empty stdout yields its parsed lines. Stderr never changes
/// the outcome; the caller may log it.
pub open spec fn classify_spec(stdout: Option<Seq<char>>) -> Option<Seq<Seq<char>>> {
    match stdout {
        None => None,
        Some(out) => Some(parse_lines(out)),
    }
}

/// The segment with one trailing carriage return removed, per [`strip_cr`].
fn strip_trailing_cr(seg: &String) -> (r: String)
    ensures
        r@ == strip_cr(seg@),
{
    let len: usize = seg.as_str().unicode_len();
    if len > 0 && seg.as_str().get_char(len - 1) == '\r' {
        let stripped: String = seg.as_str().substring_char(0, len - 1).to_owned();
        proof {
            assert(stripped@ =~= seg@.drop_last());
        }
        stripped
    } else {
        seg.clone()
    }
}

/// Splits `s` on single spaces, per [`tokenize_spec`].
pub fn tokenize(s: &str) -> (r: Vec<String>)
    ensures
        r.deep_view() == tokenize_spec(s@),
{
    if s.unicode_len() == 0 {
        let r: Vec<String> = Vec::new();
        proof {
            assert(r.deep_view() =~= Seq::<Seq<char>>::empty());
        }
        return r;
    }
    proof {
        reveal_strlit(" ");
        assert(" "@ =~= seq![' ']);
    }
    split_str(s, " ")
}

impl Processor {
    /// A processor from its base command and fragments.
    pub fn new(
        base_call: &str,
        start_call: &str,
        middle_call: Option<&str>,
        end_call: &str,
    ) -> (p: Processor)
        ensures
            p.base_call@ == base_call@,
            p.start_call@ == start_call@,
            p.middle_call.deep_view() == middle_call.deep_view(),
            p.end_call@ == end_call@,
    {
        Processor {
            base_call: base_call.to_owned(),
            start_call: start_call.to_owned(),
            middle_call: match middle_call {
                Some(m) => Some(m.to_owned()),
                None => None,
            },
            end_call: end_call.to_owned(),
        }
    }

    /// The command line for one query, per [`call_stack_spec`].
    pub fn build_call_stack(&self, uuid: Option<&str>, property: Option<&str>) -> (s: String)
        ensures
            s@ == call_stack_spec(*self, uuid.deep_view(), property.deep_view()),
    {
        proof {
            reveal_strlit(" ");
            assert(" "@ =~= seq![' ']);
        }
        let settings_name: String = "nvidia-settings".to_owned();
        let mut cs: String = self.base_call.clone();
        cs.append(" ");
        cs.append(self.start_call.as_str());
        if self.base_call.eq(&settings_name) {
            if let Some(uuid_val) = uuid {
                cs.append(uuid_val);
            }
            if let Some(middle_val) = &self.middle_call {
                cs.append(middle_val.as_str());
            }
            if let Some(property_val) = property {
                cs.append(property_val);
            }
            cs.append(self.end_call.as_str());
        } else {
            if let Some(property_val) = property {
                cs.append(property_val);
            }
            cs.append(self.end_call.as_str());
            if let Some(uuid_val) = uuid {
                cs.append(uuid_val);
            }
        }
        proof {
            assert(cs@ =~= call_stack_spec(*self, uuid.deep_view(), property.deep_view()));
        }
        cs
    }

    /// The argument vector for one query, per [`invocation_spec`].
    pub fn build_invocation(&self, uuid: Option<&str>, property: Option<&str>) -> (argv: Vec<
        String,
    >)
        ensures
            argv.deep_view() == invocation_spec(*self, uuid.deep_view(), property.deep_view()),
    {
        let cs: String = self.build_call_stack(uuid, property);
        tokenize(cs.as_str())
    }

    /// Splits raw tool output on newline boundaries into an ordered line
    /// list, per [`parse_lines`].
    pub fn parse(&self, input: &str) -> (r: Vec<String>)
        ensures
            r.deep_view() == parse_lines(input@),
    {
        proof {
            reveal_strlit("\n");
            assert("\n"@ =~= seq!['\n']);
            lemma_split_seq_nonempty(input@, seq!['\n']);
        }
        let segs: Vec<String> = split_str(input, "\n");
        let ghost raw = segs.deep_view();
        let n: usize = segs.len();
        let mut out: Vec<String> = Vec::new();
        let mut i: usize = 0;
        while i < n - 1
            invariant
                1 <= n == segs@.len(),
                raw == segs.deep_view(),
                i <= n - 1,
                out.deep_view() == Seq::new(i as nat, |j: int| strip_cr(raw[j])),
            decreases n - 1 - i,
        {
            let ghost out_before = out.deep_view();
            let ghost out_view_before = out@;
            let stripped: String = strip_trailing_cr(&segs[i]);
            proof {
                assert(stripped@ == strip_cr(raw[i as int]));
            }
            out.push(stripped);
            proof {
                assert(out_before.len() == i as int);
                assert(out@.len() == out_before.len() + 1);
                assert(out@ == out_view_before.push(stripped));
                assert forall|j: int| 0 <= j < i + 1 implies out.deep_view()[j] == Seq::new(
                    (i + 1) as nat,
                    |k: int| strip_cr(raw[k]),
                )[j] by {
                    if j < i {
                        assert(out@[j] == out_view_before[j]);
                        assert(out.deep_view()[j] == out_before[j]);
                        assert(out_before[j] == strip_cr(raw[j]));
                    } else {
                        assert(out@[j] == stripped);
                    }
                }
                assert(out.deep_view() =~= Seq::new((i + 1) as nat, |j: int| strip_cr(raw[j])));
            }
            i += 1;
        }
        let last: &String = &segs[n - 1];
        if !last.as_str().is_empty() {
            out.push(last.clone());
            proof {
                assert(out.deep_view() =~= Seq::new((n - 1) as nat, |j: int| strip_cr(raw[j])).push(
                    raw[n - 1],
                ));
            }
        }
        proof {
            assert(out.deep_view() =~= parse_lines(input@));
        }
        out
    }

    /// Classifies one captured outcome, per [`classify_spec`].
    pub fn classify_output(&self, stdout: &Option<String>) -> (r: Option<Vec<String>>)
        ensures
            r.deep_view() == classify_spec(stdout.deep_view()),
    {
        match stdout {
            None => None,
            Some(out) => Some(self.parse(out.as_str())),
        }
    }

    /// Runs one query: builds the invocation for `uuid` and `property`,
    /// hands it to `executor`, and classifies the outcome. A launch failure
    /// is the error; otherwise empty stdout yields `Ok(None)` — also when
    /// stderr was non-empty, which is swallowed, not propagated — and
    /// non-empty stdout yields its parsed lines, whatever stderr held.
    pub fn process<E: Executor>(
        &self,
        executor: &mut E,
        uuid: Option<&str>,
        property: Option<&str>,
    ) -> (r: Result<Option<Vec<String>>, ExecutionError>)
        ensures
            match r {
                Ok(Some(lines)) => exists|out: Seq<char>| lines.deep_view() == parse_lines(out),
                _ => true,
            },
    {
        let argv: Vec<String> = self.build_invocation(uuid, property);
        match executor.run(&argv) {
            Err(e) => Err(e),
            Ok((stdout, _stderr)) => {
                let classified: Option<Vec<String>> = self.classify_output(&stdout);
                proof {
                    if let Some(out) = stdout {
                        assert(classified.deep_view() == Some(parse_lines(out@)));
                    }
                }
                Ok(classified)
            },
        }
    }
}

impl Clone for Processor {
    /// An identical copy, field for field.
    fn clone(&self) -> (r: Self)
        ensures
            r == *self,
    {
        Processor {
            base_call: self.base_call.clone(),
            start_call: self.start_call.clone(),
            middle_call: match &self.middle_call {
                Some(m) => Some(m.clone()),
                None => None,
            },
            end_call: self.end_call.clone(),
        }
    }
}

impl Default for Processor {
    /// The processor whose base command and fragments are all empty.
    fn default() -> (p: Self)
        ensures
            p.base_call@ == Seq::<char>::empty(),
            p.start_call@ == Seq::<char>::empty(),
            p.middle_call is None,
            p.end_call@ == Seq::<char>::empty(),
    {
        proof {
            reveal_strlit("");
            assert(""@ =~= Seq::<char>::empty());
        }
        Processor::new("", "", None, "")
    }
}

} // verus!
