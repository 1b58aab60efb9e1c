//! The arguments of the program: options, each a name after a dash with the
//! value that follows it, and parameters.

use vstd::prelude::*;
use vstd::hash_map::StringHashMap;
use vstd::std_specs::iter::IteratorSpec;
use crate::text::{after_first, starts_with_char, texts, without_first_char};

verus! {

/// The arguments as contracts speak of them.
#[verifier::ext_equal]
pub struct ArgumentsView {
    pub arguments: Map<Seq<char>, Seq<char>>,
    pub exec_path: Seq<char>,
    pub parameters: Seq<Seq<char>>,
}

/// The arguments of the program, told apart.
pub struct AppArguments {
    /// The value of each option, by the option's name without its dash.
    pub arguments: StringHashMap<String>,
    /// The first argument: the path by which the program was called.
    pub exec_path: String,
    /// The arguments that are neither options nor their values, in order.
    pub parameters: Vec<String>,
}

/// The characters of each value of `values`.
pub open spec fn value_views(values: Map<Seq<char>, String>) -> Map<Seq<char>, Seq<char>> {
    values.map_values(|value: String| value@)
}

impl View for AppArguments {
    type V = ArgumentsView;

    open spec fn view(&self) -> ArgumentsView {
        ArgumentsView {
            arguments: value_views(self.arguments@),
            exec_path: self.exec_path@,
            parameters: texts(self.parameters@),
        }
    }
}

/// Whether `arg` has the form of an option: it starts with a dash.
pub open spec fn is_option(arg: Seq<char>) -> bool {
    arg.len() > 0 && arg[0] == '-'
}

/// Whether the argument at `i` names an option: it has the form of one, it
/// is not the first argument, and it is not the value of an option named
/// just before it.
pub open spec fn names_option(args: Seq<Seq<char>>, i: int) -> bool
    decreases i,
{
    1 <= i < args.len() && is_option(args[i]) && !names_option(args, i - 1)
}

/// Whether the argument at `i` is a parameter: it is not the first
/// argument, names no option and is no option's value.
pub open spec fn is_parameter(args: Seq<Seq<char>>, i: int) -> bool {
    1 <= i < args.len() && !names_option(args, i) && !names_option(args, i - 1)
}

/// The options among the first `n` arguments: the argument after one that
/// names an option is the option's value. Where a name comes twice, the later
/// value stays.
pub open spec fn options(args: Seq<Seq<char>>, n: int) -> Map<Seq<char>, Seq<char>>
    decreases n,
{
    if n <= 1 {
        Map::empty()
    } else if names_option(args, n - 2) {
        options(args, n - 1).insert(after_first(args[n - 2]), args[n - 1])
    } else {
        options(args, n - 1)
    }
}

/// The parameters among the first `n` arguments, in their order.
pub open spec fn parameters(args: Seq<Seq<char>>, n: int) -> Seq<Seq<char>>
    decreases n,
{
    if n <= 1 {
        Seq::empty()
    } else if is_parameter(args, n - 1) {
        parameters(args, n - 1).push(args[n - 1])
    } else {
        parameters(args, n - 1)
    }
}

/// What `args` hold: the path of the program, the options and the
/// parameters.
pub open spec fn parsed(args: Seq<Seq<char>>) -> ArgumentsView {
    ArgumentsView {
        arguments: options(args, args.len() as int),
        exec_path: if args.len() > 0 {
            args[0]
        } else {
            Seq::empty()
        },
        parameters: parameters(args, args.len() as int),
    }
}

/// What the next argument is taken for.
#[derive(Clone, Copy, Debug, PartialEq, Eq, Structural)]
pub enum Contexts {
    ExecutionPath,
    ArgumentValue,
    Parameter,
}

impl AppArguments {
    /// Tells the arguments of the program apart.
    pub fn new(app_args: Vec<String>) -> (result: AppArguments)
        ensures
            result@ == parsed(texts(app_args@)),
    {
        let mut args = StringHashMap::<String>::new();
        let mut params: Vec<String> = Vec::new();
        let mut last_arg = String::new();
        let mut exec_path = String::new();
        let mut cur_context = Contexts::ExecutionPath;
        let ghost all = texts(app_args@);
        assert(value_views(args@) =~= Map::<Seq<char>, Seq<char>>::empty());
        for app_arg in it: app_args.into_iter()
            invariant
                it.seq() == app_args@,
                all == texts(app_args@),
                (cur_context == Contexts::ExecutionPath) == (it.index() == 0),
                (cur_context == Contexts::ArgumentValue) == names_option(all, it.index() - 1),
                cur_context == Contexts::ArgumentValue ==> last_arg@ == after_first(
                    all[it.index() - 1],
                ),
                value_views(args@) == options(all, it.index()),
                texts(params@) == parameters(all, it.index()),
                exec_path@ == parsed(all.take(it.index())).exec_path,
        {
            let ghost i = it.index();
            assert(all[i] == app_arg@);
            match cur_context {
                Contexts::ExecutionPath => {
                    exec_path = app_arg;
                    cur_context = Contexts::Parameter;
                },
                Contexts::ArgumentValue => {
                    let ghost before = args@;
                    args.insert(last_arg, app_arg);
                    assert(value_views(args@) =~= value_views(before).insert(
                        after_first(all[i - 1]),
                        app_arg@,
                    ));
                    last_arg = String::new();
                    cur_context = Contexts::Parameter;
                },
                Contexts::Parameter => {
                    if starts_with_char(app_arg.as_str(), '-') {
                        last_arg = without_first_char(app_arg.as_str());
                        cur_context = Contexts::ArgumentValue;
                    } else {
                        let ghost before = params@;
                        params.push(app_arg);
                        assert(texts(params@) == texts(before).push(app_arg@));
                    }
                },
            }
        }
        AppArguments { arguments: args, exec_path: exec_path, parameters: params }
    }

    /// The value of the option called `name`, where the arguments give one.
    pub fn argument(&self, name: &str) -> (value: Option<&String>)
        ensures
            match value {
                Some(text) => self@.arguments.contains_key(name@) && text@
                    == self@.arguments[name@],
                None => !self@.arguments.contains_key(name@),
            },
    {
        self.arguments.get(name)
    }
}

} // verus!
