//! Paths into a nested description, and the text that names them.

use crate::decimal::{append_decimal, decimal};
use vstd::prelude::*;
use vstd::string::StringExecFns;

verus! {

/// One step of navigation into a nested description.
#[derive(Debug, PartialEq, Eq)]
pub enum PathStep {
    /// A field of the given name was entered.
    Name(String),
    /// An element of a sequence was entered, counted from zero.
    Index(usize),
}

/// The mathematical value of a [`PathStep`].
pub enum Step {
    Name(Seq<char>),
    Index(nat),
}

impl View for PathStep {
    type V = Step;

    open spec fn view(&self) -> Step {
        match self {
            PathStep::Name(name) => Step::Name(name@),
            PathStep::Index(index) => Step::Index(*index as nat),
        }
    }
}

impl Clone for PathStep {
    fn clone(&self) -> (copy: Self)
        ensures
            copy == *self,
    {
        match self {
            PathStep::Name(name) => PathStep::Name(name.clone()),
            PathStep::Index(index) => PathStep::Index(*index),
        }
    }
}

/// The mathematical value of a path: the values of its steps, outermost first.
pub open spec fn path_view(path: Seq<PathStep>) -> Seq<Step> {
    Seq::new(path.len(), |i: int| path[i]@)
}

/// A name is written in single quotes exactly when it holds a space.
pub open spec fn needs_quotes(name: Seq<char>) -> bool {
    name.contains(' ')
}

/// The text of one step: `.name`, `.'na me'` or `[index]`.
pub open spec fn step_text(step: Step) -> Seq<char> {
    match step {
        Step::Name(name) => if needs_quotes(name) {
            seq!['.', '\''] + name + seq!['\'']
        } else {
            seq!['.'] + name
        },
        Step::Index(index) => seq!['['] + decimal(index) + seq![']'],
    }
}

/// The texts of the steps of `path`, one after the other in path order and
/// with nothing between them. No step is left out or moved, and two indices
/// in a row stand bracket to bracket, as in `[42][1337]`.
pub open spec fn steps_text(path: Seq<Step>) -> Seq<char>
    decreases path.len(),
{
    if path.len() == 0 {
        Seq::empty()
    } else {
        steps_text(path.drop_last()) + step_text(path.last())
    }
}

/// The text that names the place `path` leads to: `.` for the root, else the
/// texts of its steps.
pub open spec fn path_text(path: Seq<Step>) -> Seq<char> {
    if path.len() == 0 {
        seq!['.']
    } else {
        steps_text(path)
    }
}

/// Whether `name` holds a space.
pub fn has_space(name: &str) -> (found: bool)
    ensures
        found == needs_quotes(name@),
{
    let mut found = false;
    for c in it: name.chars()
        invariant
            it.seq() == name@,
            found == exists|j: int| 0 <= j < it.index() && name@[j] == ' ',
    {
        if c == ' ' {
            found = true;
        }
    }
    found
}

impl PathStep {
    /// Appends the text of this step to `out`.
    pub fn render_into(&self, out: &mut String)
        ensures
            final(out)@ == old(out)@ + step_text(self@),
    {
        proof {
            reveal_strlit(".");
            reveal_strlit(".'");
            reveal_strlit("'");
            reveal_strlit("[");
            reveal_strlit("]");
        }
        match self {
            PathStep::Name(name) => {
                if has_space(name.as_str()) {
                    out.append(".'");
                    out.append(name.as_str());
                    out.append("'");
                } else {
                    out.append(".");
                    out.append(name.as_str());
                }
            },
            PathStep::Index(index) => {
                out.append("[");
                append_decimal(out, *index);
                out.append("]");
            },
        }
    }
}

/// The text that names the place `path` leads to.
pub fn render_path(path: &[PathStep]) -> (text: String)
    ensures
        text@ == path_text(path_view(path@)),
{
    let mut text = String::new();
    if path.len() == 0 {
        proof {
            reveal_strlit(".");
        }
        text.append(".");
        return text;
    }
    let ghost steps = path_view(path@);
    let mut i: usize = 0;
    while i < path.len()
        invariant
            i <= path.len(),
            steps == path_view(path@),
            text@ == steps_text(steps.take(i as int)),
        decreases path.len() - i,
    {
        path[i].render_into(&mut text);
        assert(steps.take(i + 1).drop_last() =~= steps.take(i as int));
        i += 1;
    }
    assert(steps.take(i as int) =~= steps);
    text
}

/// The text of a path that was put together from two is the text of the first
/// followed by the text of the second.
pub proof fn lemma_steps_text_concat(first: Seq<Step>, second: Seq<Step>)
    ensures
        steps_text(first + second) == steps_text(first) + steps_text(second),
    decreases second.len(),
{
    if second.len() == 0 {
        assert(first + second =~= first);
    } else {
        lemma_steps_text_concat(first, second.drop_last());
        assert((first + second).drop_last() =~= first + second.drop_last());
    }
}

/// The text of a path of one step is the text of that step.
pub proof fn lemma_steps_text_single(step: Step)
    ensures
        steps_text(seq![step]) == step_text(step),
{
    assert(steps_text(seq![step].drop_last()) =~= Seq::<char>::empty());
}

/// The text of every step starts with `.` or with `[`, so no step has an empty
/// text.
pub proof fn lemma_step_text_starts(step: Step)
    ensures
        step_text(step).len() >= 1,
        step is Name ==> step_text(step)[0] == '.',
        step is Index ==> step_text(step)[0] == '[',
{
    if let Step::Index(index) = step {
        crate::decimal::lemma_decimal_shape(index);
    }
}

/// The text of a path is never empty and starts with `.` or with `[`: with
/// `.` for the root and where the first step is a name, with `[` where it is
/// an index.
pub proof fn lemma_path_text_starts(path: Seq<Step>)
    ensures
        path_text(path).len() >= 1,
        path.len() == 0 || path[0] is Name ==> path_text(path)[0] == '.',
        path.len() > 0 && path[0] is Index ==> path_text(path)[0] == '[',
{
    if path.len() > 0 {
        let first = seq![path[0]];
        let rest = path.subrange(1, path.len() as int);
        assert(path =~= first + rest);
        lemma_steps_text_concat(first, rest);
        lemma_steps_text_single(path[0]);
        lemma_step_text_starts(path[0]);
    }
}

/// The text of a path under a prefix: where neither is the root, the text of
/// the prefix followed by the text of the path; where one is the root, the
/// text of the other.
pub proof fn lemma_path_text_prefixed(prefix: Seq<Step>, path: Seq<Step>)
    ensures
        path_text(prefix + path) == if path.len() == 0 {
            path_text(prefix)
        } else if prefix.len() == 0 {
            path_text(path)
        } else {
            path_text(prefix) + path_text(path)
        },
{
    if path.len() == 0 {
        assert(prefix + path =~= prefix);
    } else if prefix.len() == 0 {
        assert(prefix + path =~= path);
    } else {
        lemma_steps_text_concat(prefix, path);
    }
}

/// Rendering depends on nothing but the value of the path: two paths of the
/// same value have the same text, however often it is asked for.
pub proof fn lemma_path_text_deterministic(first: Seq<PathStep>, second: Seq<PathStep>)
    requires
        path_view(first) == path_view(second),
    ensures
        path_text(path_view(first)) == path_text(path_view(second)),
{
}

} // verus!
