//! Declarative construction: parsing command-line tokens.
//!
//! Each mode has a token-list parser that starts from the same
//! defaults as the mode's `new()` constructor and applies flags left
//! to right. The recursive spec functions here are the grammar; each
//! executable parser is proved to return exactly what its spec
//! function says, for every token list.

use vstd::prelude::*;
use vstd::string::StrSliceExecFns;
use crate::definitions::{
    dominators_defaults, paths_defaults, top_defaults, Dominators, DominatorsView, Options,
    OptionsView, Paths, PathsView, Top, TopView,
};
use crate::errors::{ErrView, OptError};
use crate::output::{spec_parse_destination, spec_parse_format, OutputDestination, OutputFormat};
use crate::text::{parse_u32, spec_parse_u32, str_eq};

verus! {

/// The views of a list of tokens: each token as its character
/// sequence.
pub open spec fn token_views(tokens: Seq<String>) -> Seq<Seq<char>> {
    tokens.map_values(|t: String| t@)
}

/// Whether a token looks like a flag: it starts with a dash and is
/// more than the bare dash. The bare dash is a valid positional value
/// (it names standard output), so it is not flag-like.
pub open spec fn is_flag_like(t: Seq<char>) -> bool {
    t.len() >= 2 && t[0] == '-'
}

/// Executable form of [`is_flag_like`].
fn flag_like(t: &str) -> (r: bool)
    ensures
        r == is_flag_like(t@),
{
    let len = t.unicode_len();
    len >= 2 && t.get_char(0) == '-'
}

/// Parser state for the `top` mode: the configuration built so far,
/// and whether the required input positional has been seen.
#[verifier::ext_equal]
pub struct TopParse {
    pub cfg: TopView,
    pub input_set: bool,
}

/// The grammar of the `top` subcommand, applied to the tokens that
/// remain: flags and at most one positional input, left to right,
/// with a later flag occurrence replacing an earlier one. The first
/// offending token decides the error.
pub open spec fn parse_top_from(tokens: Seq<Seq<char>>, st: TopParse) -> Result<TopView, ErrView>
    decreases tokens.len(),
{
    if tokens.len() == 0 {
        if st.input_set {
            Ok(st.cfg)
        } else {
            Err(ErrView::MissingRequiredInput)
        }
    } else {
        let t = tokens[0];
        if t == "-o"@ {
            if tokens.len() < 2 {
                Err(ErrView::MalformedArgument(t))
            } else {
                parse_top_from(
                    tokens.skip(2),
                    TopParse {
                        cfg: TopView {
                            output_destination: spec_parse_destination(tokens[1]),
                            ..st.cfg
                        },
                        ..st
                    },
                )
            }
        } else if t == "-f"@ || t == "--format"@ {
            if tokens.len() < 2 {
                Err(ErrView::MalformedArgument(t))
            } else {
                match spec_parse_format(tokens[1]) {
                    Some(f) => parse_top_from(
                        tokens.skip(2),
                        TopParse { cfg: TopView { output_format: f, ..st.cfg }, ..st },
                    ),
                    None => Err(ErrView::UnrecognizedFormat(tokens[1])),
                }
            }
        } else if t == "-n"@ {
            if tokens.len() < 2 {
                Err(ErrView::MalformedArgument(t))
            } else {
                match spec_parse_u32(tokens[1]) {
                    Some(n) => parse_top_from(
                        tokens.skip(2),
                        TopParse { cfg: TopView { number: Some(n), ..st.cfg }, ..st },
                    ),
                    None => Err(ErrView::MalformedArgument(tokens[1])),
                }
            }
        } else if t == "-r"@ || t == "--retaining-paths"@ {
            parse_top_from(
                tokens.skip(1),
                TopParse { cfg: TopView { retaining_paths: true, ..st.cfg }, ..st },
            )
        } else if t == "--retained"@ {
            parse_top_from(
                tokens.skip(1),
                TopParse { cfg: TopView { retained: true, ..st.cfg }, ..st },
            )
        } else if is_flag_like(t) {
            Err(ErrView::MalformedArgument(t))
        } else if !st.input_set {
            parse_top_from(
                tokens.skip(1),
                TopParse { cfg: TopView { input: t, ..st.cfg }, input_set: true },
            )
        } else {
            Err(ErrView::MalformedArgument(t))
        }
    }
}

/// What parsing the tokens after the `top` subcommand yields,
/// starting from the same defaults as `Top::new()`.
pub open spec fn spec_parse_top(tokens: Seq<Seq<char>>) -> Result<TopView, ErrView> {
    parse_top_from(tokens, TopParse { cfg: top_defaults(), input_set: false })
}

impl Top {
    /// Declarative construction: parse the tokens that follow the
    /// `top` subcommand. Omitted flags keep the same defaults as
    /// [`Top::new`]; the result is exactly what [`spec_parse_top`]
    /// says for these tokens.
    pub fn parse(tokens: &Vec<String>) -> (r: Result<Top, OptError>)
        ensures
            match r {
                Ok(c) => spec_parse_top(token_views(tokens@)) == Ok::<TopView, ErrView>(c@),
                Err(e) => spec_parse_top(token_views(tokens@)) == Err::<TopView, ErrView>(e@),
            },
    {
        let ghost toks = token_views(tokens@);
        let mut cfg = Top::new();
        let mut input_set: bool = false;
        let mut i: usize = 0;
        proof {
            assert(toks.skip(0) =~= toks);
        }
        while i < tokens.len()
            invariant
                0 <= i <= tokens.len(),
                toks == token_views(tokens@),
                toks.len() == tokens@.len(),
                parse_top_from(toks.skip(i as int), TopParse { cfg: cfg@, input_set })
                    == spec_parse_top(toks),
            decreases tokens.len() - i,
        {
            let ghost rem = toks.skip(i as int);
            let ghost st = TopParse { cfg: cfg@, input_set };
            let t = &tokens[i];
            proof {
                assert(rem[0] == toks[i as int]);
                assert(toks[i as int] == tokens@[i as int]@);
                assert(rem.len() == toks.len() - i);
            }
            if str_eq(t.as_str(), "-o") {
                if i + 1 == tokens.len() {
                    return Err(OptError::MalformedArgument(t.clone()));
                }
                let v = &tokens[i + 1];
                proof {
                    assert(rem[1] == toks[i + 1]);
                    assert(toks[i + 1] == tokens@[i + 1]@);
                    assert(rem.skip(2) =~= toks.skip(i + 2));
                }
                cfg.output_destination = OutputDestination::parse(v.as_str());
                proof {
                    assert(cfg@ =~= (TopView {
                        output_destination: spec_parse_destination(rem[1]),
                        ..st.cfg
                    }));
                }
                i += 2;
            } else if str_eq(t.as_str(), "-f") || str_eq(t.as_str(), "--format") {
                if i + 1 == tokens.len() {
                    return Err(OptError::MalformedArgument(t.clone()));
                }
                let v = &tokens[i + 1];
                proof {
                    assert(rem[1] == toks[i + 1]);
                    assert(toks[i + 1] == tokens@[i + 1]@);
                    assert(rem.skip(2) =~= toks.skip(i + 2));
                }
                match OutputFormat::parse(v.as_str()) {
                    Ok(f) => {
                        cfg.output_format = f;
                        proof {
                            assert(cfg@ =~= (TopView { output_format: f, ..st.cfg }));
                        }
                        i += 2;
                    },
                    Err(e) => {
                        return Err(e);
                    },
                }
            } else if str_eq(t.as_str(), "-n") {
                if i + 1 == tokens.len() {
                    return Err(OptError::MalformedArgument(t.clone()));
                }
                let v = &tokens[i + 1];
                proof {
                    assert(rem[1] == toks[i + 1]);
                    assert(toks[i + 1] == tokens@[i + 1]@);
                    assert(rem.skip(2) =~= toks.skip(i + 2));
                }
                match parse_u32(v.as_str()) {
                    Some(n) => {
                        cfg.number = Some(n);
                        proof {
                            assert(cfg@ =~= (TopView { number: Some(n), ..st.cfg }));
                        }
                        i += 2;
                    },
                    None => {
                        return Err(OptError::MalformedArgument(v.clone()));
                    },
                }
            } else if str_eq(t.as_str(), "-r") || str_eq(t.as_str(), "--retaining-paths") {
                proof {
                    assert(rem.skip(1) =~= toks.skip(i + 1));
                }
                cfg.retaining_paths = true;
                proof {
                    assert(cfg@ =~= (TopView { retaining_paths: true, ..st.cfg }));
                }
                i += 1;
            } else if str_eq(t.as_str(), "--retained") {
                proof {
                    assert(rem.skip(1) =~= toks.skip(i + 1));
                }
                cfg.retained = true;
                proof {
                    assert(cfg@ =~= (TopView { retained: true, ..st.cfg }));
                }
                i += 1;
            } else if flag_like(t.as_str()) {
                return Err(OptError::MalformedArgument(t.clone()));
            } else if !input_set {
                proof {
                    assert(rem.skip(1) =~= toks.skip(i + 1));
                }
                cfg.input = t.clone();
                input_set = true;
                proof {
                    assert(cfg@ =~= (TopView { input: rem[0], ..st.cfg }));
                }
                i += 1;
            } else {
                return Err(OptError::MalformedArgument(t.clone()));
            }
        }
        proof {
            assert(toks.skip(i as int) =~= Seq::<Seq<char>>::empty());
        }
        if input_set {
            Ok(cfg)
        } else {
            Err(OptError::MissingRequiredInput)
        }
    }
}

/// Parser state for the `dominators` mode.
#[verifier::ext_equal]
pub struct DominatorsParse {
    pub cfg: DominatorsView,
    pub input_set: bool,
}

/// The grammar of the `dominators` subcommand, applied to the tokens
/// that remain: flags and at most one positional input, left to
/// right, with a later flag occurrence replacing an earlier one. The
/// first offending token decides the error.
pub open spec fn parse_dominators_from(tokens: Seq<Seq<char>>, st: DominatorsParse) -> Result<
    DominatorsView,
    ErrView,
>
    decreases tokens.len(),
{
    if tokens.len() == 0 {
        if st.input_set {
            Ok(st.cfg)
        } else {
            Err(ErrView::MissingRequiredInput)
        }
    } else {
        let t = tokens[0];
        if t == "-o"@ {
            if tokens.len() < 2 {
                Err(ErrView::MalformedArgument(t))
            } else {
                parse_dominators_from(
                    tokens.skip(2),
                    DominatorsParse {
                        cfg: DominatorsView {
                            output_destination: spec_parse_destination(tokens[1]),
                            ..st.cfg
                        },
                        ..st
                    },
                )
            }
        } else if t == "-f"@ || t == "--format"@ {
            if tokens.len() < 2 {
                Err(ErrView::MalformedArgument(t))
            } else {
                match spec_parse_format(tokens[1]) {
                    Some(f) => parse_dominators_from(
                        tokens.skip(2),
                        DominatorsParse { cfg: DominatorsView { output_format: f, ..st.cfg }, ..st },
                    ),
                    None => Err(ErrView::UnrecognizedFormat(tokens[1])),
                }
            }
        } else if t == "-d"@ {
            if tokens.len() < 2 {
                Err(ErrView::MalformedArgument(t))
            } else {
                match spec_parse_u32(tokens[1]) {
                    Some(n) => parse_dominators_from(
                        tokens.skip(2),
                        DominatorsParse {
                            cfg: DominatorsView { max_depth: Some(n), ..st.cfg },
                            ..st
                        },
                    ),
                    None => Err(ErrView::MalformedArgument(tokens[1])),
                }
            }
        } else if t == "-r"@ {
            if tokens.len() < 2 {
                Err(ErrView::MalformedArgument(t))
            } else {
                match spec_parse_u32(tokens[1]) {
                    Some(n) => parse_dominators_from(
                        tokens.skip(2),
                        DominatorsParse {
                            cfg: DominatorsView { max_rows: Some(n), ..st.cfg },
                            ..st
                        },
                    ),
                    None => Err(ErrView::MalformedArgument(tokens[1])),
                }
            }
        } else if is_flag_like(t) {
            Err(ErrView::MalformedArgument(t))
        } else if !st.input_set {
            parse_dominators_from(
                tokens.skip(1),
                DominatorsParse { cfg: DominatorsView { input: t, ..st.cfg }, input_set: true },
            )
        } else {
            Err(ErrView::MalformedArgument(t))
        }
    }
}

/// What parsing the tokens after the `dominators` subcommand yields,
/// starting from the same defaults as `Dominators::new()`.
pub open spec fn spec_parse_dominators(tokens: Seq<Seq<char>>) -> Result<DominatorsView, ErrView> {
    parse_dominators_from(
        tokens,
        DominatorsParse { cfg: dominators_defaults(), input_set: false },
    )
}

impl Dominators {
    /// Declarative construction: parse the tokens that follow the
    /// `dominators` subcommand. Omitted flags keep the same defaults
    /// as [`Dominators::new`]; the result is exactly what
    /// [`spec_parse_dominators`] says for these tokens.
    pub fn parse(tokens: &Vec<String>) -> (r: Result<Dominators, OptError>)
        ensures
            match r {
                Ok(c) => spec_parse_dominators(token_views(tokens@)) == Ok::<
                    DominatorsView,
                    ErrView,
                >(c@),
                Err(e) => spec_parse_dominators(token_views(tokens@)) == Err::<
                    DominatorsView,
                    ErrView,
                >(e@),
            },
    {
        let ghost toks = token_views(tokens@);
        let mut cfg = Dominators::new();
        let mut input_set: bool = false;
        let mut i: usize = 0;
        proof {
            assert(toks.skip(0) =~= toks);
        }
        while i < tokens.len()
            invariant
                0 <= i <= tokens.len(),
                toks == token_views(tokens@),
                toks.len() == tokens@.len(),
                parse_dominators_from(toks.skip(i as int), DominatorsParse { cfg: cfg@, input_set })
                    == spec_parse_dominators(toks),
            decreases tokens.len() - i,
        {
            let ghost rem = toks.skip(i as int);
            let ghost st = DominatorsParse { cfg: cfg@, input_set };
            let t = &tokens[i];
            proof {
                assert(rem[0] == toks[i as int]);
                assert(toks[i as int] == tokens@[i as int]@);
                assert(rem.len() == toks.len() - i);
            }
            if str_eq(t.as_str(), "-o") {
                if i + 1 == tokens.len() {
                    return Err(OptError::MalformedArgument(t.clone()));
                }
                let v = &tokens[i + 1];
                proof {
                    assert(rem[1] == toks[i + 1]);
                    assert(toks[i + 1] == tokens@[i + 1]@);
                    assert(rem.skip(2) =~= toks.skip(i + 2));
                }
                cfg.output_destination = OutputDestination::parse(v.as_str());
                proof {
                    assert(cfg@ =~= (DominatorsView {
                        output_destination: spec_parse_destination(rem[1]),
                        ..st.cfg
                    }));
                }
                i += 2;
            } else if str_eq(t.as_str(), "-f") || str_eq(t.as_str(), "--format") {
                if i + 1 == tokens.len() {
                    return Err(OptError::MalformedArgument(t.clone()));
                }
                let v = &tokens[i + 1];
                proof {
                    assert(rem[1] == toks[i + 1]);
                    assert(toks[i + 1] == tokens@[i + 1]@);
                    assert(rem.skip(2) =~= toks.skip(i + 2));
                }
                match OutputFormat::parse(v.as_str()) {
                    Ok(f) => {
                        cfg.output_format = f;
                        proof {
                            assert(cfg@ =~= (DominatorsView { output_format: f, ..st.cfg }));
                        }
                        i += 2;
                    },
                    Err(e) => {
                        return Err(e);
                    },
                }
            } else if str_eq(t.as_str(), "-d") {
                if i + 1 == tokens.len() {
                    return Err(OptError::MalformedArgument(t.clone()));
                }
                let v = &tokens[i + 1];
                proof {
                    assert(rem[1] == toks[i + 1]);
                    assert(toks[i + 1] == tokens@[i + 1]@);
                    assert(rem.skip(2) =~= toks.skip(i + 2));
                }
                match parse_u32(v.as_str()) {
                    Some(n) => {
                        cfg.max_depth = Some(n);
                        proof {
                            assert(cfg@ =~= (DominatorsView { max_depth: Some(n), ..st.cfg }));
                        }
                        i += 2;
                    },
                    None => {
                        return Err(OptError::MalformedArgument(v.clone()));
                    },
                }
            } else if str_eq(t.as_str(), "-r") {
                if i + 1 == tokens.len() {
                    return Err(OptError::MalformedArgument(t.clone()));
                }
                let v = &tokens[i + 1];
                proof {
                    assert(rem[1] == toks[i + 1]);
                    assert(toks[i + 1] == tokens@[i + 1]@);
                    assert(rem.skip(2) =~= toks.skip(i + 2));
                }
                match parse_u32(v.as_str()) {
                    Some(n) => {
                        cfg.max_rows = Some(n);
                        proof {
                            assert(cfg@ =~= (DominatorsView { max_rows: Some(n), ..st.cfg }));
                        }
                        i += 2;
                    },
                    None => {
                        return Err(OptError::MalformedArgument(v.clone()));
                    },
                }
            } else if flag_like(t.as_str()) {
                return Err(OptError::MalformedArgument(t.clone()));
            } else if !input_set {
                proof {
                    assert(rem.skip(1) =~= toks.skip(i + 1));
                }
                cfg.input = t.clone();
                input_set = true;
                proof {
                    assert(cfg@ =~= (DominatorsView { input: rem[0], ..st.cfg }));
                }
                i += 1;
            } else {
                return Err(OptError::MalformedArgument(t.clone()));
            }
        }
        proof {
            assert(toks.skip(i as int) =~= Seq::<Seq<char>>::empty());
        }
        if input_set {
            Ok(cfg)
        } else {
            Err(OptError::MissingRequiredInput)
        }
    }
}

/// Parser state for the `paths` mode.
#[verifier::ext_equal]
pub struct PathsParse {
    pub cfg: PathsView,
    pub input_set: bool,
}

/// The grammar of the `paths` subcommand, applied to the tokens that
/// remain: flags, one positional input, and any number of further
/// positionals appended in order as function names. A later flag
/// occurrence replaces an earlier one; the first offending token
/// decides the error.
pub open spec fn parse_paths_from(tokens: Seq<Seq<char>>, st: PathsParse) -> Result<
    PathsView,
    ErrView,
>
    decreases tokens.len(),
{
    if tokens.len() == 0 {
        if st.input_set {
            Ok(st.cfg)
        } else {
            Err(ErrView::MissingRequiredInput)
        }
    } else {
        let t = tokens[0];
        if t == "-o"@ {
            if tokens.len() < 2 {
                Err(ErrView::MalformedArgument(t))
            } else {
                parse_paths_from(
                    tokens.skip(2),
                    PathsParse {
                        cfg: PathsView {
                            output_destination: spec_parse_destination(tokens[1]),
                            ..st.cfg
                        },
                        ..st
                    },
                )
            }
        } else if t == "-f"@ || t == "--format"@ {
            if tokens.len() < 2 {
                Err(ErrView::MalformedArgument(t))
            } else {
                match spec_parse_format(tokens[1]) {
                    Some(f) => parse_paths_from(
                        tokens.skip(2),
                        PathsParse { cfg: PathsView { output_format: f, ..st.cfg }, ..st },
                    ),
                    None => Err(ErrView::UnrecognizedFormat(tokens[1])),
                }
            }
        } else if t == "-d"@ {
            if tokens.len() < 2 {
                Err(ErrView::MalformedArgument(t))
            } else {
                match spec_parse_u32(tokens[1]) {
                    Some(n) => parse_paths_from(
                        tokens.skip(2),
                        PathsParse { cfg: PathsView { max_depth: n, ..st.cfg }, ..st },
                    ),
                    None => Err(ErrView::MalformedArgument(tokens[1])),
                }
            }
        } else if t == "-r"@ {
            if tokens.len() < 2 {
                Err(ErrView::MalformedArgument(t))
            } else {
                match spec_parse_u32(tokens[1]) {
                    Some(n) => parse_paths_from(
                        tokens.skip(2),
                        PathsParse { cfg: PathsView { max_paths: n, ..st.cfg }, ..st },
                    ),
                    None => Err(ErrView::MalformedArgument(tokens[1])),
                }
            }
        } else if is_flag_like(t) {
            Err(ErrView::MalformedArgument(t))
        } else if !st.input_set {
            parse_paths_from(
                tokens.skip(1),
                PathsParse { cfg: PathsView { input: t, ..st.cfg }, input_set: true },
            )
        } else {
            parse_paths_from(
                tokens.skip(1),
                PathsParse {
                    cfg: PathsView { functions: st.cfg.functions.push(t), ..st.cfg },
                    ..st
                },
            )
        }
    }
}

/// What parsing the tokens after the `paths` subcommand yields,
/// starting from the same defaults as `Paths::new()`.
pub open spec fn spec_parse_paths(tokens: Seq<Seq<char>>) -> Result<PathsView, ErrView> {
    parse_paths_from(tokens, PathsParse { cfg: paths_defaults(), input_set: false })
}

impl Paths {
    /// Declarative construction: parse the tokens that follow the
    /// `paths` subcommand. Omitted flags keep the same defaults as
    /// [`Paths::new`]; positionals after the input are appended as
    /// function names in order. The result is exactly what
    /// [`spec_parse_paths`] says for these tokens.
    pub fn parse(tokens: &Vec<String>) -> (r: Result<Paths, OptError>)
        ensures
            match r {
                Ok(c) => spec_parse_paths(token_views(tokens@)) == Ok::<PathsView, ErrView>(c@),
                Err(e) => spec_parse_paths(token_views(tokens@)) == Err::<PathsView, ErrView>(e@),
            },
    {
        let ghost toks = token_views(tokens@);
        let mut cfg = Paths::new();
        let mut input_set: bool = false;
        let mut i: usize = 0;
        proof {
            assert(toks.skip(0) =~= toks);
        }
        while i < tokens.len()
            invariant
                0 <= i <= tokens.len(),
                toks == token_views(tokens@),
                toks.len() == tokens@.len(),
                parse_paths_from(toks.skip(i as int), PathsParse { cfg: cfg@, input_set })
                    == spec_parse_paths(toks),
            decreases tokens.len() - i,
        {
            let ghost rem = toks.skip(i as int);
            let ghost st = PathsParse { cfg: cfg@, input_set };
            let t = &tokens[i];
            proof {
                assert(rem[0] == toks[i as int]);
                assert(toks[i as int] == tokens@[i as int]@);
                assert(rem.len() == toks.len() - i);
            }
            if str_eq(t.as_str(), "-o") {
                if i + 1 == tokens.len() {
                    return Err(OptError::MalformedArgument(t.clone()));
                }
                let v = &tokens[i + 1];
                proof {
                    assert(rem[1] == toks[i + 1]);
                    assert(toks[i + 1] == tokens@[i + 1]@);
                    assert(rem.skip(2) =~= toks.skip(i + 2));
                }
                cfg.output_destination = OutputDestination::parse(v.as_str());
                proof {
                    assert(cfg@ =~= (PathsView {
                        output_destination: spec_parse_destination(rem[1]),
                        ..st.cfg
                    }));
                }
                i += 2;
            } else if str_eq(t.as_str(), "-f") || str_eq(t.as_str(), "--format") {
                if i + 1 == tokens.len() {
                    return Err(OptError::MalformedArgument(t.clone()));
                }
                let v = &tokens[i + 1];
                proof {
                    assert(rem[1] == toks[i + 1]);
                    assert(toks[i + 1] == tokens@[i + 1]@);
                    assert(rem.skip(2) =~= toks.skip(i + 2));
                }
                match OutputFormat::parse(v.as_str()) {
                    Ok(f) => {
                        cfg.output_format = f;
                        proof {
                            assert(cfg@ =~= (PathsView { output_format: f, ..st.cfg }));
                        }
                        i += 2;
                    },
                    Err(e) => {
                        return Err(e);
                    },
                }
            } else if str_eq(t.as_str(), "-d") {
                if i + 1 == tokens.len() {
                    return Err(OptError::MalformedArgument(t.clone()));
                }
                let v = &tokens[i + 1];
                proof {
                    assert(rem[1] == toks[i + 1]);
                    assert(toks[i + 1] == tokens@[i + 1]@);
                    assert(rem.skip(2) =~= toks.skip(i + 2));
                }
                match parse_u32(v.as_str()) {
                    Some(n) => {
                        cfg.max_depth = n;
                        proof {
                            assert(cfg@ =~= (PathsView { max_depth: n, ..st.cfg }));
                        }
                        i += 2;
                    },
                    None => {
                        return Err(OptError::MalformedArgument(v.clone()));
                    },
                }
            } else if str_eq(t.as_str(), "-r") {
                if i + 1 == tokens.len() {
                    return Err(OptError::MalformedArgument(t.clone()));
                }
                let v = &tokens[i + 1];
                proof {
                    assert(rem[1] == toks[i + 1]);
                    assert(toks[i + 1] == tokens@[i + 1]@);
                    assert(rem.skip(2) =~= toks.skip(i + 2));
                }
                match parse_u32(v.as_str()) {
                    Some(n) => {
                        cfg.max_paths = n;
                        proof {
                            assert(cfg@ =~= (PathsView { max_paths: n, ..st.cfg }));
                        }
                        i += 2;
                    },
                    None => {
                        return Err(OptError::MalformedArgument(v.clone()));
                    },
                }
            } else if flag_like(t.as_str()) {
                return Err(OptError::MalformedArgument(t.clone()));
            } else if !input_set {
                proof {
                    assert(rem.skip(1) =~= toks.skip(i + 1));
                }
                cfg.input = t.clone();
                input_set = true;
                proof {
                    assert(cfg@ =~= (PathsView { input: rem[0], ..st.cfg }));
                }
                i += 1;
            } else {
                proof {
                    assert(rem.skip(1) =~= toks.skip(i + 1));
                }
                cfg.add_function(t.clone());
                proof {
                    assert(cfg@ =~= (PathsView { functions: st.cfg.functions.push(rem[0]), ..st.cfg }));
                }
                i += 1;
            }
        }
        proof {
            assert(toks.skip(i as int) =~= Seq::<Seq<char>>::empty());
        }
        if input_set {
            Ok(cfg)
        } else {
            Err(OptError::MissingRequiredInput)
        }
    }
}

/// What parsing a full command line yields: the first token selects
/// the subcommand, and the rest goes to that mode's parser. An empty
/// token list lacks the required input; an unknown first token is
/// malformed.
pub open spec fn spec_parse_options(tokens: Seq<Seq<char>>) -> Result<OptionsView, ErrView> {
    if tokens.len() == 0 {
        Err(ErrView::MissingRequiredInput)
    } else if tokens[0] == "top"@ {
        match spec_parse_top(tokens.skip(1)) {
            Ok(c) => Ok(OptionsView::Top(c)),
            Err(e) => Err(e),
        }
    } else if tokens[0] == "dominators"@ {
        match spec_parse_dominators(tokens.skip(1)) {
            Ok(c) => Ok(OptionsView::Dominators(c)),
            Err(e) => Err(e),
        }
    } else if tokens[0] == "paths"@ {
        match spec_parse_paths(tokens.skip(1)) {
            Ok(c) => Ok(OptionsView::Paths(c)),
            Err(e) => Err(e),
        }
    } else {
        Err(ErrView::MalformedArgument(tokens[0]))
    }
}

/// The tokens after the first one, for handing to a mode parser.
fn tail_tokens(tokens: &Vec<String>) -> (r: Vec<String>)
    requires
        tokens@.len() >= 1,
    ensures
        token_views(r@) == token_views(tokens@).skip(1),
{
    let mut r: Vec<String> = Vec::new();
    let mut i: usize = 1;
    while i < tokens.len()
        invariant
            1 <= i <= tokens@.len(),
            r@.len() == i - 1,
            forall|j: int| 0 <= j < r@.len() ==> r@[j] == tokens@[j + 1],
        decreases tokens@.len() - i,
    {
        r.push(tokens[i].clone());
        i += 1;
    }
    proof {
        assert(token_views(r@) =~= token_views(tokens@).skip(1));
    }
    r
}

impl Options {
    /// Declarative construction of a whole command: the first token
    /// names the subcommand (`top`, `dominators` or `paths`) and the
    /// remaining tokens configure that mode. The result is exactly
    /// what [`spec_parse_options`] says for these tokens.
    pub fn parse(tokens: &Vec<String>) -> (r: Result<Options, OptError>)
        ensures
            match r {
                Ok(c) => spec_parse_options(token_views(tokens@)) == Ok::<OptionsView, ErrView>(
                    c@,
                ),
                Err(e) => spec_parse_options(token_views(tokens@)) == Err::<OptionsView, ErrView>(
                    e@,
                ),
            },
    {
        let ghost toks = token_views(tokens@);
        proof {
            assert(toks.len() == tokens@.len());
        }
        if tokens.len() == 0 {
            return Err(OptError::MissingRequiredInput);
        }
        let t = &tokens[0];
        proof {
            assert(toks[0] == tokens@[0]@);
        }
        if str_eq(t.as_str(), "top") {
            let rest = tail_tokens(tokens);
            match Top::parse(&rest) {
                Ok(c) => Ok(Options::Top(c)),
                Err(e) => Err(e),
            }
        } else if str_eq(t.as_str(), "dominators") {
            let rest = tail_tokens(tokens);
            match Dominators::parse(&rest) {
                Ok(c) => Ok(Options::Dominators(c)),
                Err(e) => Err(e),
            }
        } else if str_eq(t.as_str(), "paths") {
            let rest = tail_tokens(tokens);
            match Paths::parse(&rest) {
                Ok(c) => Ok(Options::Paths(c)),
                Err(e) => Err(e),
            }
        } else {
            Err(OptError::MalformedArgument(t.clone()))
        }
    }
}

/// Both construction paths of the `top` mode agree on every default:
/// parsing a bare input token yields exactly the configuration that
/// `Top::new()` builds, with only the input filled in.
pub proof fn lemma_top_parse_defaults(input: Seq<char>)
    requires
        !is_flag_like(input),
    ensures
        spec_parse_top(seq![input]) == Ok::<TopView, ErrView>(
            TopView { input: input, ..top_defaults() },
        ),
{
    reveal_strlit("-o");
    reveal_strlit("-f");
    reveal_strlit("--format");
    reveal_strlit("-n");
    reveal_strlit("-r");
    reveal_strlit("--retaining-paths");
    reveal_strlit("--retained");
    let s = seq![input];
    let st = TopParse {
        cfg: TopView { input: input, ..top_defaults() },
        input_set: true,
    };
    assert(s.skip(1) =~= Seq::<Seq<char>>::empty());
    assert(parse_top_from(s.skip(1), st) == Ok::<TopView, ErrView>(st.cfg));
    assert(spec_parse_top(s) == parse_top_from(s.skip(1), st));
}

/// Both construction paths of the `dominators` mode agree on every
/// default: parsing a bare input token yields exactly the
/// configuration that `Dominators::new()` builds, with only the input
/// filled in.
pub proof fn lemma_dominators_parse_defaults(input: Seq<char>)
    requires
        !is_flag_like(input),
    ensures
        spec_parse_dominators(seq![input]) == Ok::<DominatorsView, ErrView>(
            DominatorsView { input: input, ..dominators_defaults() },
        ),
{
    reveal_strlit("-o");
    reveal_strlit("-f");
    reveal_strlit("--format");
    reveal_strlit("-d");
    reveal_strlit("-r");
    let s = seq![input];
    let st = DominatorsParse {
        cfg: DominatorsView { input: input, ..dominators_defaults() },
        input_set: true,
    };
    assert(s.skip(1) =~= Seq::<Seq<char>>::empty());
    assert(parse_dominators_from(s.skip(1), st) == Ok::<DominatorsView, ErrView>(st.cfg));
    assert(spec_parse_dominators(s) == parse_dominators_from(s.skip(1), st));
}

/// Both construction paths of the `paths` mode agree on every
/// default: parsing a bare input token yields exactly the
/// configuration that `Paths::new()` builds, with only the input
/// filled in — in particular, the same depth and path-count defaults
/// of ten, and an empty function list.
pub proof fn lemma_paths_parse_defaults(input: Seq<char>)
    requires
        !is_flag_like(input),
    ensures
        spec_parse_paths(seq![input]) == Ok::<PathsView, ErrView>(
            PathsView { input: input, ..paths_defaults() },
        ),
        spec_parse_paths(seq![input]) matches Ok(c) ==> c.max_depth == 10 && c.max_paths == 10
            && c.functions.len() == 0,
{
    reveal_strlit("-o");
    reveal_strlit("-f");
    reveal_strlit("--format");
    reveal_strlit("-d");
    reveal_strlit("-r");
    let s = seq![input];
    let st = PathsParse {
        cfg: PathsView { input: input, ..paths_defaults() },
        input_set: true,
    };
    assert(s.skip(1) =~= Seq::<Seq<char>>::empty());
    assert(parse_paths_from(s.skip(1), st) == Ok::<PathsView, ErrView>(st.cfg));
    assert(spec_parse_paths(s) == parse_paths_from(s.skip(1), st));
}

} // verus!
