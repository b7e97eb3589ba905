//! The three mode configurations and the command that wraps them.

use vstd::prelude::*;
use crate::output::{DestView, OutputDestination, OutputFormat};

verus! {

/// Effective value of an optional bound: the stored value when one
/// was set, else the largest representable value, so that consumers
/// never special-case "no limit" against "very large limit".
pub open spec fn effective_bound(bound: Option<u32>) -> u32 {
    match bound {
        Some(n) => n,
        None => u32::MAX,
    }
}

/// An optional bound left unset resolves to the maximum representable
/// unsigned value.
pub proof fn lemma_unset_bound_is_max()
    ensures
        effective_bound(None) == u32::MAX,
{
}

/// A bound that was set resolves to exactly the value given, for
/// every value.
pub proof fn lemma_set_bound_is_value(n: u32)
    ensures
        effective_bound(Some(n)) == n,
{
}

/// Configuration of the `top` mode: list the top code-size offenders
/// in a binary.
#[derive(Clone, Debug, PartialEq, Eq)]
pub struct Top {
    /// The path to the input binary to size profile.
    pub input: String,
    /// The destination to write the output to.
    pub output_destination: OutputDestination,
    /// The format the output should be written in.
    pub output_format: OutputFormat,
    /// The maximum number of items to display; absent means no limit.
    pub number: Option<u32>,
    /// Whether to also compute and display retaining paths.
    pub retaining_paths: bool,
    /// Whether to sort by retained size rather than shallow size.
    pub retained: bool,
}

/// Mathematical value of a [`Top`] configuration.
#[verifier::ext_equal]
pub struct TopView {
    pub input: Seq<char>,
    pub output_destination: DestView,
    pub output_format: OutputFormat,
    pub number: Option<u32>,
    pub retaining_paths: bool,
    pub retained: bool,
}

impl View for Top {
    type V = TopView;

    open spec fn view(&self) -> TopView {
        TopView {
            input: self.input@,
            output_destination: self.output_destination@,
            output_format: self.output_format,
            number: self.number,
            retaining_paths: self.retaining_paths,
            retained: self.retained,
        }
    }
}

/// The documented defaults of the `top` mode: no input yet, standard
/// output, plain text, no row limit, both switches off.
pub open spec fn top_defaults() -> TopView {
    TopView {
        input: Seq::<char>::empty(),
        output_destination: DestView::Stdout,
        output_format: OutputFormat::Text,
        number: None,
        retaining_paths: false,
        retained: false,
    }
}

impl Default for Top {
    /// Every field at its documented default.
    fn default() -> (r: Top)
        ensures
            r@ == top_defaults(),
    {
        let r = Top {
            input: String::new(),
            output_destination: OutputDestination::Stdout,
            output_format: OutputFormat::Text,
            number: None,
            retaining_paths: false,
            retained: false,
        };
        proof {
            assert(r@ =~= top_defaults());
        }
        r
    }
}

impl Top {
    /// Construct a new, default `Top`.
    pub fn new() -> (r: Top)
        ensures
            r@ == top_defaults(),
    {
        Top::default()
    }

    /// The effective maximum number of items to display: the value
    /// set, or the maximum representable value when none was set.
    pub fn number(&self) -> (r: u32)
        ensures
            r == effective_bound(self@.number),
    {
        match self.number {
            Some(n) => n,
            None => u32::MAX,
        }
    }

    /// Whether retaining paths are displayed.
    pub fn retaining_paths(&self) -> (r: bool)
        ensures
            r == self@.retaining_paths,
    {
        self.retaining_paths
    }

    /// Whether the list is sorted by retained size rather than
    /// shallow size.
    pub fn retained(&self) -> (r: bool)
        ensures
            r == self@.retained,
    {
        self.retained
    }

    /// Set the maximum number of items to display.
    pub fn set_number(&mut self, n: u32)
        ensures
            final(self)@ == (TopView { number: Some(n), ..old(self)@ }),
    {
        self.number = Some(n);
    }

    /// Set whether to display and compute retaining paths.
    pub fn set_retaining_paths(&mut self, do_it: bool)
        ensures
            final(self)@ == (TopView { retaining_paths: do_it, ..old(self)@ }),
    {
        self.retaining_paths = do_it;
    }

    /// Set whether to sort by retained size rather than shallow size.
    pub fn set_retained(&mut self, do_it: bool)
        ensures
            final(self)@ == (TopView { retained: do_it, ..old(self)@ }),
    {
        self.retained = do_it;
    }
}

/// Configuration of the `dominators` mode: compute and display the
/// dominator tree of a binary's call graph.
#[derive(Clone, Debug, PartialEq, Eq)]
pub struct Dominators {
    /// The path to the input binary to size profile.
    pub input: String,
    /// The destination to write the output to.
    pub output_destination: OutputDestination,
    /// The format the output should be written in.
    pub output_format: OutputFormat,
    /// The maximum tree depth to print; absent means no limit.
    pub max_depth: Option<u32>,
    /// The maximum number of rows to display; absent means no limit.
    pub max_rows: Option<u32>,
}

/// Mathematical value of a [`Dominators`] configuration.
#[verifier::ext_equal]
pub struct DominatorsView {
    pub input: Seq<char>,
    pub output_destination: DestView,
    pub output_format: OutputFormat,
    pub max_depth: Option<u32>,
    pub max_rows: Option<u32>,
}

impl View for Dominators {
    type V = DominatorsView;

    open spec fn view(&self) -> DominatorsView {
        DominatorsView {
            input: self.input@,
            output_destination: self.output_destination@,
            output_format: self.output_format,
            max_depth: self.max_depth,
            max_rows: self.max_rows,
        }
    }
}

/// The documented defaults of the `dominators` mode: no input yet,
/// standard output, plain text, no depth or row limit.
pub open spec fn dominators_defaults() -> DominatorsView {
    DominatorsView {
        input: Seq::<char>::empty(),
        output_destination: DestView::Stdout,
        output_format: OutputFormat::Text,
        max_depth: None,
        max_rows: None,
    }
}

impl Default for Dominators {
    /// Every field at its documented default.
    fn default() -> (r: Dominators)
        ensures
            r@ == dominators_defaults(),
    {
        let r = Dominators {
            input: String::new(),
            output_destination: OutputDestination::Stdout,
            output_format: OutputFormat::Text,
            max_depth: None,
            max_rows: None,
        };
        proof {
            assert(r@ =~= dominators_defaults());
        }
        r
    }
}

impl Dominators {
    /// Construct a new, default `Dominators`.
    pub fn new() -> (r: Dominators)
        ensures
            r@ == dominators_defaults(),
    {
        Dominators::default()
    }

    /// The effective maximum depth to print the dominator tree: the
    /// value set, or the maximum representable value when none was
    /// set.
    pub fn max_depth(&self) -> (r: u32)
        ensures
            r == effective_bound(self@.max_depth),
    {
        match self.max_depth {
            Some(n) => n,
            None => u32::MAX,
        }
    }

    /// The effective maximum number of rows to display: the value
    /// set, or the maximum representable value when none was set.
    pub fn max_rows(&self) -> (r: u32)
        ensures
            r == effective_bound(self@.max_rows),
    {
        match self.max_rows {
            Some(n) => n,
            None => u32::MAX,
        }
    }

    /// Set the maximum depth to print the dominator tree.
    pub fn set_max_depth(&mut self, max_depth: u32)
        ensures
            final(self)@ == (DominatorsView { max_depth: Some(max_depth), ..old(self)@ }),
    {
        self.max_depth = Some(max_depth);
    }

    /// Set the maximum number of rows to display.
    pub fn set_max_rows(&mut self, max_rows: u32)
        ensures
            final(self)@ == (DominatorsView { max_rows: Some(max_rows), ..old(self)@ }),
    {
        self.max_rows = Some(max_rows);
    }
}

/// Configuration of the `paths` mode: find and display the call paths
/// to the given functions in a binary's call graph.
#[derive(Clone, Debug, PartialEq, Eq)]
pub struct Paths {
    /// The path to the input binary to size profile.
    pub input: String,
    /// The functions to find call paths to, in the order given.
    pub functions: Vec<String>,
    /// The destination to write the output to.
    pub output_destination: OutputDestination,
    /// The format the output should be written in.
    pub output_format: OutputFormat,
    /// The maximum depth to print the paths.
    pub max_depth: u32,
    /// The maximum number of paths to display.
    pub max_paths: u32,
}

/// Mathematical value of a [`Paths`] configuration.
#[verifier::ext_equal]
pub struct PathsView {
    pub input: Seq<char>,
    pub functions: Seq<Seq<char>>,
    pub output_destination: DestView,
    pub output_format: OutputFormat,
    pub max_depth: u32,
    pub max_paths: u32,
}

impl View for Paths {
    type V = PathsView;

    open spec fn view(&self) -> PathsView {
        PathsView {
            input: self.input@,
            functions: self.functions@.map_values(|f: String| f@),
            output_destination: self.output_destination@,
            output_format: self.output_format,
            max_depth: self.max_depth,
            max_paths: self.max_paths,
        }
    }
}

/// The documented defaults of the `paths` mode: no input yet, no
/// functions, standard output, plain text, depth and path count both
/// bounded at ten.
pub open spec fn paths_defaults() -> PathsView {
    PathsView {
        input: Seq::<char>::empty(),
        functions: Seq::<Seq<char>>::empty(),
        output_destination: DestView::Stdout,
        output_format: OutputFormat::Text,
        max_depth: 10,
        max_paths: 10,
    }
}

impl Default for Paths {
    /// Every field at its documented default.
    fn default() -> (r: Paths)
        ensures
            r@ == paths_defaults(),
    {
        let r = Paths {
            input: String::new(),
            functions: Vec::new(),
            output_destination: OutputDestination::Stdout,
            output_format: OutputFormat::Text,
            max_depth: 10,
            max_paths: 10,
        };
        proof {
            assert(r@.functions =~= paths_defaults().functions);
            assert(r@ =~= paths_defaults());
        }
        r
    }
}

impl Paths {
    /// Construct a new, default `Paths`.
    pub fn new() -> (r: Paths)
        ensures
            r@ == paths_defaults(),
    {
        Paths::default()
    }

    /// Append one function name to find call paths for. Appending is
    /// positional and strictly additive: earlier names keep their
    /// places, and the new name comes last.
    pub fn add_function(&mut self, function: String)
        ensures
            final(self)@ == (PathsView {
                functions: old(self)@.functions.push(function@),
                ..old(self)@
            }),
    {
        self.functions.push(function);
        proof {
            assert(self@.functions =~= old(self)@.functions.push(function@));
        }
    }

    /// The maximum depth to print the paths.
    pub fn max_depth(&self) -> (r: u32)
        ensures
            r == self@.max_depth,
    {
        self.max_depth
    }

    /// The maximum number of paths to display.
    pub fn max_paths(&self) -> (r: u32)
        ensures
            r == self@.max_paths,
    {
        self.max_paths
    }

    /// Set the maximum depth to print the paths.
    pub fn set_max_depth(&mut self, max_depth: u32)
        ensures
            final(self)@ == (PathsView { max_depth: max_depth, ..old(self)@ }),
    {
        self.max_depth = max_depth;
    }

    /// Set the maximum number of paths to display.
    pub fn set_max_paths(&mut self, max_paths: u32)
        ensures
            final(self)@ == (PathsView { max_paths: max_paths, ..old(self)@ }),
    {
        self.max_paths = max_paths;
    }
}

/// Appending two function names in turn extends the list by exactly
/// those names, in that order, and leaves every earlier entry
/// untouched.
pub proof fn lemma_add_function_order(p: PathsView, a: Seq<char>, b: Seq<char>)
    ensures
        ({
            let fs = p.functions.push(a).push(b);
            &&& fs.len() == p.functions.len() + 2
            &&& fs[p.functions.len() as int] == a
            &&& fs[p.functions.len() as int + 1] == b
            &&& forall|j: int| 0 <= j < p.functions.len() ==> fs[j] == p.functions[j]
        }),
{
}

/// One profiling command: the mode to run together with its full
/// configuration. The analysis engine dispatches on the variant and
/// consumes the payload unchanged.
#[derive(Clone, Debug, PartialEq, Eq)]
pub enum Options {
    /// List the top code size offenders in a binary.
    Top(Top),
    /// Compute and display the dominator tree for a binary's call
    /// graph.
    Dominators(Dominators),
    /// Find and display the call paths to functions in a binary's
    /// call graph.
    Paths(Paths),
}

/// Mathematical value of an [`Options`] command.
#[verifier::ext_equal]
pub enum OptionsView {
    Top(TopView),
    Dominators(DominatorsView),
    Paths(PathsView),
}

impl View for Options {
    type V = OptionsView;

    open spec fn view(&self) -> OptionsView {
        match self {
            Options::Top(t) => OptionsView::Top(t@),
            Options::Dominators(d) => OptionsView::Dominators(d@),
            Options::Paths(p) => OptionsView::Paths(p@),
        }
    }
}

} // verus!
