//! Findings of a validation: errors with the place they were found at, and
//! the result that collects them in the order in which they were found.

use crate::manifest::description::path::{path_text, path_view, render_path, PathStep, Step};
use vstd::prelude::*;

verus! {

/// A message and the path to the value that it is about. The path runs from
/// the root of the validation inwards; an empty path means the root itself.
#[derive(Debug, PartialEq, Eq)]
pub struct ValidationError {
    message: String,
    path: Vec<PathStep>,
}

/// The mathematical value of a [`ValidationError`].
pub struct ErrorModel {
    pub message: Seq<char>,
    pub path: Seq<Step>,
}

impl ErrorModel {
    /// The text that names the place of the error.
    pub open spec fn id(self) -> Seq<char> {
        path_text(self.path)
    }

    /// The same error as seen from further out: `prefix` leads from there to
    /// the root that the error's own path starts at.
    pub open spec fn rebase(self, prefix: Seq<Step>) -> ErrorModel {
        ErrorModel { message: self.message, path: prefix + self.path }
    }
}

impl View for ValidationError {
    type V = ErrorModel;

    closed spec fn view(&self) -> ErrorModel {
        ErrorModel { message: self.message@, path: path_view(self.path@) }
    }
}

/// Appends a copy of each step of `steps` to `out`, in order.
fn extend_with_copies(out: &mut Vec<PathStep>, steps: &[PathStep])
    ensures
        final(out)@ == old(out)@ + steps@,
{
    let mut i: usize = 0;
    while i < steps.len()
        invariant
            i <= steps.len(),
            out@ == old(out)@ + steps@.take(i as int),
        decreases steps.len() - i,
    {
        out.push(steps[i].clone());
        assert(out@ =~= old(out)@ + steps@.take(i + 1));
        i += 1;
    }
    assert(steps@.take(i as int) =~= steps@);
}

impl ValidationError {
    /// An error with the given message at the given path. Any message and any
    /// path are taken, the empty path too.
    pub fn new(message: &str, path: Vec<PathStep>) -> (error: Self)
        ensures
            error@ == (ErrorModel { message: message@, path: path_view(path@) }),
    {
        ValidationError { message: message.to_owned(), path }
    }

    /// The message of the error.
    pub fn message(&self) -> (message: &str)
        ensures
            message@ == self@.message,
    {
        self.message.as_str()
    }

    /// The path to the value that the error is about, outermost step first.
    pub fn path(&self) -> (path: &[PathStep])
        ensures
            path_view(path@) == self@.path,
    {
        self.path.as_slice()
    }

    /// The text that names the place of the error.
    pub fn id(&self) -> (text: String)
        ensures
            text@ == self@.id(),
    {
        render_path(self.path.as_slice())
    }

    /// A copy of the error as seen from further out: its path is `prefix`
    /// followed by the path of this error, its message is the same.
    pub fn rebased(&self, prefix: &[PathStep]) -> (error: Self)
        ensures
            error@ == self@.rebase(path_view(prefix@)),
    {
        let mut path: Vec<PathStep> = Vec::new();
        extend_with_copies(&mut path, prefix);
        extend_with_copies(&mut path, self.path.as_slice());
        assert(path_view(path@) =~= path_view(prefix@) + path_view(self.path@));
        ValidationError { message: self.message.clone(), path }
    }
}

impl Clone for ValidationError {
    fn clone(&self) -> (copy: Self)
        ensures
            copy@ == self@,
    {
        let mut path: Vec<PathStep> = Vec::new();
        extend_with_copies(&mut path, self.path.as_slice());
        ValidationError { message: self.message.clone(), path }
    }
}

/// The mathematical values of a sequence of errors, in the same order.
pub open spec fn errors_view(errors: Seq<ValidationError>) -> Seq<ErrorModel> {
    Seq::new(errors.len(), |i: int| errors[i]@)
}

/// The mathematical values of the lines of a report, in the same order.
pub open spec fn lines_view(lines: Seq<(String, String)>) -> Seq<(Seq<char>, Seq<char>)> {
    Seq::new(lines.len(), |i: int| (lines[i].0@, lines[i].1@))
}

/// What one validation found: the errors in the order in which they were
/// found, and a label for the document or validator that they come from.
#[derive(Debug, PartialEq, Eq)]
pub struct ValidationResult {
    origin: Option<String>,
    errors: Vec<ValidationError>,
}

/// The mathematical value of a [`ValidationResult`].
pub struct ResultModel {
    pub origin: Option<Seq<char>>,
    pub errors: Seq<ErrorModel>,
}

impl ResultModel {
    /// The result that holds no error yet.
    pub open spec fn empty(origin: Option<Seq<char>>) -> ResultModel {
        ResultModel { origin, errors: Seq::empty() }
    }

    /// A result is valid exactly when it holds no error.
    pub open spec fn is_valid(self) -> bool {
        self.errors.len() == 0
    }

    /// The result with `error` added behind the errors it held.
    pub open spec fn with_error(self, error: ErrorModel) -> ResultModel {
        ResultModel { origin: self.origin, errors: self.errors.push(error) }
    }

    /// The result with an error added that is about the root itself.
    pub open spec fn with_failure(self, message: Seq<char>) -> ResultModel {
        self.with_error(ErrorModel { message, path: Seq::empty() })
    }

    /// The errors of `sub` as seen from the root of a result that reaches the
    /// root of `sub` by `prefix`, in the order that `sub` holds them in.
    pub open spec fn rebased_errors(sub: ResultModel, prefix: Seq<Step>) -> Seq<ErrorModel> {
        Seq::new(sub.errors.len(), |i: int| sub.errors[i].rebase(prefix))
    }

    /// The result with the errors of `sub` added behind the errors it held,
    /// each under `prefix`. The origin of `sub` is dropped.
    pub open spec fn with_merged(self, sub: ResultModel, prefix: Seq<Step>) -> ResultModel {
        ResultModel {
            origin: self.origin,
            errors: self.errors + Self::rebased_errors(sub, prefix),
        }
    }

    /// For each error, in order, the text that names its place and its
    /// message.
    pub open spec fn report(self) -> Seq<(Seq<char>, Seq<char>)> {
        Seq::new(self.errors.len(), |i: int| (self.errors[i].id(), self.errors[i].message))
    }
}

impl View for ValidationResult {
    type V = ResultModel;

    closed spec fn view(&self) -> ResultModel {
        ResultModel {
            origin: match self.origin {
                Some(label) => Some(label@),
                None => None,
            },
            errors: errors_view(self.errors@),
        }
    }
}

impl ValidationResult {
    /// A result for `origin` that holds no error.
    pub fn new(origin: Option<String>) -> (result: Self)
        ensures
            result@ == ResultModel::empty(
                match origin {
                    Some(label) => Some(label@),
                    None => None,
                },
            ),
            result@.is_valid(),
    {
        let result = ValidationResult { origin, errors: Vec::new() };
        assert(result@.errors =~= Seq::empty());
        result
    }

    /// The label of the document or validator that the result comes from.
    pub fn origin(&self) -> (origin: Option<&str>)
        ensures
            match origin {
                Some(label) => self@.origin == Some(label@),
                None => self@.origin is None,
            },
    {
        match &self.origin {
            Some(label) => Some(label.as_str()),
            None => None,
        }
    }

    /// The errors, in the order in which they were found.
    pub fn errors(&self) -> (errors: &[ValidationError])
        ensures
            errors_view(errors@) == self@.errors,
    {
        self.errors.as_slice()
    }

    /// Whether the result holds no error.
    pub fn is_valid(&self) -> (valid: bool)
        ensures
            valid == self@.is_valid(),
    {
        self.errors.len() == 0
    }

    /// Adds `error` as it is, behind the errors that the result holds.
    pub fn add(&mut self, error: ValidationError)
        ensures
            final(self)@ == old(self)@.with_error(error@),
            !final(self)@.is_valid(),
    {
        self.errors.push(error);
        assert(self@.errors =~= old(self)@.errors.push(error@));
    }

    /// Adds an error with `message` that is about the root itself.
    pub fn fail(&mut self, message: &str)
        ensures
            final(self)@ == old(self)@.with_failure(message@),
            !final(self)@.is_valid(),
    {
        let error = ValidationError::new(message, Vec::new());
        assert(error@.path =~= Seq::empty());
        self.add(error);
    }

    /// Adds the errors of `sub_result` behind the errors that the result
    /// holds, in their order, each with `prefix_path` put before its path. The
    /// origin of `sub_result` is not taken over.
    pub fn merge(&mut self, sub_result: &ValidationResult, prefix_path: &[PathStep])
        ensures
            final(self)@ == old(self)@.with_merged(sub_result@, path_view(prefix_path@)),
            final(self)@.is_valid() == (old(self)@.is_valid() && sub_result@.is_valid()),
    {
        let ghost prefix = path_view(prefix_path@);
        let ghost rebased = ResultModel::rebased_errors(sub_result@, prefix);
        let mut i: usize = 0;
        while i < sub_result.errors.len()
            invariant
                i <= sub_result.errors.len(),
                prefix == path_view(prefix_path@),
                rebased == ResultModel::rebased_errors(sub_result@, prefix),
                self@.origin == old(self)@.origin,
                self@.errors == old(self)@.errors + rebased.take(i as int),
            decreases sub_result.errors.len() - i,
        {
            let ghost before = self@.errors;
            let error = sub_result.errors[i].rebased(prefix_path);
            self.errors.push(error);
            assert(self@.errors =~= before.push(error@));
            assert(rebased.take(i + 1) =~= rebased.take(i as int).push(rebased[i as int]));
            i += 1;
        }
        assert(rebased.take(i as int) =~= rebased);
    }

    /// For each error, in order, the text that names its place and its
    /// message.
    pub fn report(&self) -> (lines: Vec<(String, String)>)
        ensures
            lines_view(lines@) == self@.report(),
    {
        let mut lines: Vec<(String, String)> = Vec::new();
        let mut i: usize = 0;
        while i < self.errors.len()
            invariant
                i <= self.errors.len(),
                lines_view(lines@) == self@.report().take(i as int),
            decreases self.errors.len() - i,
        {
            let ghost before = lines@;
            let error = &self.errors[i];
            let line = (error.id(), error.message.clone());
            lines.push(line);
            assert(lines_view(lines@) =~= lines_view(before).push((line.0@, line.1@)));
            i += 1;
        }
        assert(self@.report().take(i as int) =~= self@.report());
        lines
    }
}

impl<'a> From<&'a ValidationResult> for bool {
    /// A result converts to `true` exactly when it is valid.
    fn from(result: &'a ValidationResult) -> (valid: bool) {
        result.is_valid()
    }
}

impl<'a> vstd::std_specs::convert::FromSpecImpl<&'a ValidationResult> for bool {
    open spec fn obeys_from_spec() -> bool {
        true
    }

    open spec fn from_spec(result: &'a ValidationResult) -> bool {
        result@.is_valid()
    }
}

/// A result that was just made is valid.
pub proof fn lemma_empty_is_valid(origin: Option<Seq<char>>)
    ensures
        ResultModel::empty(origin).is_valid(),
{
}

/// A result to which an error was added is invalid, whatever it held before
/// and however the error came: as it is, or as a failure of the root.
pub proof fn lemma_error_makes_invalid(result: ResultModel, error: ErrorModel, message: Seq<char>)
    ensures
        !result.with_error(error).is_valid(),
        !result.with_failure(message).is_valid(),
{
}

/// A result stays valid under a merge exactly when it was valid and the
/// merged result is valid too.
pub proof fn lemma_merge_validity(result: ResultModel, sub: ResultModel, prefix: Seq<Step>)
    ensures
        result.with_merged(sub, prefix).is_valid() == (result.is_valid() && sub.is_valid()),
{
}

/// Errors stay in the order in which they were added: after `first` and then
/// `second` were added, the result holds what it held before, then `first`,
/// then `second`.
pub proof fn lemma_errors_keep_order(result: ResultModel, first: ErrorModel, second: ErrorModel)
    ensures
        result.with_error(first).with_error(second).errors == result.errors + seq![first, second],
{
    assert(result.with_error(first).with_error(second).errors =~= result.errors + seq![
        first,
        second,
    ]);
}

/// Merged results stay in the order in which they were merged: after `first`
/// and then `second` were merged, the result holds what it held before, then
/// the errors of `first`, then those of `second`, each under the prefix it was
/// merged with.
pub proof fn lemma_merges_keep_order(
    result: ResultModel,
    first: ResultModel,
    first_prefix: Seq<Step>,
    second: ResultModel,
    second_prefix: Seq<Step>,
)
    ensures
        result.with_merged(first, first_prefix).with_merged(second, second_prefix).errors
            == result.errors + ResultModel::rebased_errors(first, first_prefix)
            + ResultModel::rebased_errors(second, second_prefix),
{
}

/// What a merge does to each error: the errors that the result held stay as
/// they were and where they were; behind them the errors of the merged result
/// follow in their order, each with its message and with the prefix put before
/// its path.
pub proof fn lemma_merge_prefixes_paths(result: ResultModel, sub: ResultModel, prefix: Seq<Step>)
    ensures
        result.with_merged(sub, prefix).origin == result.origin,
        result.with_merged(sub, prefix).errors.len() == result.errors.len() + sub.errors.len(),
        forall|i: int|
            0 <= i < result.errors.len() ==> #[trigger] result.with_merged(sub, prefix).errors[i]
                == result.errors[i],
        forall|i: int|
            0 <= i < sub.errors.len() ==> (#[trigger] result.with_merged(
                sub,
                prefix,
            ).errors[result.errors.len() + i]).message == sub.errors[i].message,
        forall|i: int|
            0 <= i < sub.errors.len() ==> (#[trigger] result.with_merged(
                sub,
                prefix,
            ).errors[result.errors.len() + i]).path == prefix + sub.errors[i].path,
{
}

/// Merging under the empty prefix adds the errors as they are, and merging a
/// valid result changes nothing.
pub proof fn lemma_merge_neutral(result: ResultModel, sub: ResultModel, prefix: Seq<Step>)
    ensures
        result.with_merged(sub, Seq::empty()).errors == result.errors + sub.errors,
        sub.is_valid() ==> result.with_merged(sub, prefix) == result,
{
    let plain = ResultModel::rebased_errors(sub, Seq::empty());
    assert forall|i: int| 0 <= i < sub.errors.len() implies plain[i] == sub.errors[i] by {
        assert(Seq::<Step>::empty() + sub.errors[i].path =~= sub.errors[i].path);
    }
    assert(plain =~= sub.errors);
    if sub.is_valid() {
        assert(result.with_merged(sub, prefix).errors =~= result.errors);
    }
}

/// Merging in two levels is merging once under the joined prefix: errors that
/// were merged into `middle` under `inner`, and with it into `result` under
/// `outer`, arrive as if merged into `result` under `outer` followed by `inner`.
pub proof fn lemma_merge_nested(
    result: ResultModel,
    middle: ResultModel,
    sub: ResultModel,
    outer: Seq<Step>,
    inner: Seq<Step>,
)
    ensures
        result.with_merged(middle.with_merged(sub, inner), outer) == result.with_merged(
            middle,
            outer,
        ).with_merged(sub, outer + inner),
{
    let left = result.with_merged(middle.with_merged(sub, inner), outer);
    let right = result.with_merged(middle, outer).with_merged(sub, outer + inner);
    assert forall|i: int| 0 <= i < left.errors.len() implies left.errors[i] == right.errors[i] by {
        if i >= result.errors.len() + middle.errors.len() {
            let k = i - result.errors.len() - middle.errors.len();
            assert(outer + (inner + sub.errors[k].path) =~= (outer + inner) + sub.errors[k].path);
        }
    }
    assert(left.errors =~= right.errors);
}

/// The text that names the place of a merged error: where neither the prefix
/// nor the error's own path is the root, the text of the prefix followed by
/// the text of the error's own path; where one is the root, the text of the
/// other.
pub proof fn lemma_rebased_id(error: ErrorModel, prefix: Seq<Step>)
    ensures
        error.rebase(prefix).message == error.message,
        error.rebase(prefix).id() == if error.path.len() == 0 {
            path_text(prefix)
        } else if prefix.len() == 0 {
            error.id()
        } else {
            path_text(prefix) + error.id()
        },
{
    crate::manifest::description::path::lemma_path_text_prefixed(prefix, error.path);
}

} // verus!
