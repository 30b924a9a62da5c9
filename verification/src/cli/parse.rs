//! Reading the options of `build` from the command line.
use vstd::prelude::*;
use crate::cli::error::{cli_error, cli_error_value};
use crate::error::{PzlError, PzlErrorView};
use crate::extension::{path_file_name, split_seq, string_views, PathBufExt, StringExt, split_str};
use crate::options::{default_options, CliOptions, CliOptionsView};
use crate::text::{
    chars_of, concat, debug_path, debug_path_quoted, has_whitespace, push_str, starts_with, str_eq,
    string_of_chars, to_owned_string, unicode_white_space,
};

verus! {

pub const KEY_PATH: &'static str = "--path";
pub const KEY_FEATURES: &'static str = "--features";
pub const KEY_EXPORTS: &'static str = "--exports";
pub const KEY_INFOS: &'static str = "--infos";

pub const OPTION_ANSI_COLOR: &'static str = "ansi-color";
pub const OPTION_AST: &'static str = "ast";
pub const OPTION_PROGRESS: &'static str = "progress";
pub const OPTION_IGNORE: &'static str = "ignore";
pub const OPTION_FILE: &'static str = "file";

pub const VALUE_ALL: &'static str = "all";
pub const VALUE_NONE: &'static str = "none";
pub const ASSIGN: &'static str = "=";
pub const VALUE_SEPARATOR: &'static str = ",";

pub const MSG_UNKNOWN_OPTION: &'static str = "未知选项: ";
pub const MSG_REPEATED_OPTION: &'static str = "重复的选项: ";
pub const MSG_ARGUMENT: &'static str = "参数 ";
pub const MSG_WHITESPACE: &'static str = " 中不允许出现空白字符";
pub const MSG_MISSING_VALUE: &'static str = "=<option1,option2,...> 缺少值";
pub const MSG_UNAVAILABLE_VALUE: &'static str = " 不可用的值";
pub const MSG_REPEATED_VALUE: &'static str = " 重复的值";
pub const MSG_MISSING_OPTION_HEAD: &'static str = "缺少 ";
pub const MSG_MISSING_OPTION_TAIL: &'static str = " 参数";
pub const MSG_NO_PROJECT: &'static str = " 项目不存在";

/// The options that `build` takes, in a fixed order: `--path`, `--features`,
/// `--exports`, `--infos`.
pub open spec fn keys() -> Seq<Seq<char>> {
    seq![KEY_PATH@, KEY_FEATURES@, KEY_EXPORTS@, KEY_INFOS@]
}

/// What an argument for the option `k` begins with: its name and `=`.
pub open spec fn key_prefix(k: int) -> Seq<char> {
    keys()[k] + ASSIGN@
}

/// Whether `s` begins with `p`.
pub open spec fn begins_with(s: Seq<char>, p: Seq<char>) -> bool {
    p.len() <= s.len() && s.take(p.len() as int) == p
}

/// The option that the argument `arg` gives a value to.
pub open spec fn arg_key(arg: Seq<char>) -> Option<int> {
    if begins_with(arg, key_prefix(0)) {
        Some(0)
    } else if begins_with(arg, key_prefix(1)) {
        Some(1)
    } else if begins_with(arg, key_prefix(2)) {
        Some(2)
    } else if begins_with(arg, key_prefix(3)) {
        Some(3)
    } else {
        None
    }
}

/// The values that the option `k` (other than `--path`) can list.
pub open spec fn option_values(k: int) -> Seq<Seq<char>> {
    if k == 1 {
        seq![OPTION_ANSI_COLOR@]
    } else if k == 2 {
        seq![OPTION_AST@]
    } else {
        seq![OPTION_PROGRESS@, OPTION_IGNORE@, OPTION_FILE@]
    }
}

/// The first of the listed values `vs[from..]` that is not available, or
/// that was listed before.
pub open spec fn first_bad_value(vs: Seq<Seq<char>>, available: Seq<Seq<char>>, from: int) -> Option<
    int,
>
    decreases vs.len() - from,
{
    if from < 0 || from >= vs.len() {
        None
    } else if !available.contains(vs[from]) || vs.take(from).contains(vs[from]) {
        Some(from)
    } else {
        first_bad_value(vs, available, from + 1)
    }
}

/// The message for the listed value `v` of the option `key`.
pub open spec fn value_text(key: Seq<char>, v: Seq<char>, tail: Seq<char>) -> Seq<char> {
    key + ASSIGN@ + v + tail
}

/// What a value `value` of an option `key` that switches the options
/// `available` on and off means: `all` switches every one on; `none` switches
/// every one off; otherwise `value` lists, separated by commas, the ones to
/// switch on, and every other one is off. A listed value that is not
/// available, or that is listed twice, is an error.
pub open spec fn bool_options_result(
    value: Seq<char>,
    key: Seq<char>,
    available: Seq<Seq<char>>,
) -> Result<Seq<bool>, PzlErrorView> {
    if value == VALUE_ALL@ {
        Ok(Seq::new(available.len(), |j: int| true))
    } else if value == VALUE_NONE@ {
        Ok(Seq::new(available.len(), |j: int| false))
    } else {
        let vs = split_seq(value, VALUE_SEPARATOR@);
        match first_bad_value(vs, available, 0) {
            Some(i) => if !available.contains(vs[i]) {
                Err(cli_error_value(value_text(key, vs[i], MSG_UNAVAILABLE_VALUE@)))
            } else {
                Err(cli_error_value(value_text(key, vs[i], MSG_REPEATED_VALUE@)))
            },
            None => Ok(Seq::new(available.len(), |j: int| vs.contains(available[j]))),
        }
    }
}

/// The options `o` with the switches of the option `k` set to `flags`.
pub open spec fn with_flags(o: CliOptionsView, k: int, flags: Seq<bool>) -> CliOptionsView {
    if k == 1 {
        CliOptionsView { enable_ansi_color: flags[0], ..o }
    } else if k == 2 {
        CliOptionsView { enable_export_ast: flags[0], ..o }
    } else {
        CliOptionsView {
            enable_info_progress: flags[0],
            enable_info_ignore: flags[1],
            enable_info_file: flags[2],
            ..o
        }
    }
}

/// The options `o` after the option `k` is given the value `v`.
pub open spec fn apply_value(o: CliOptionsView, k: int, v: Seq<char>) -> Result<
    CliOptionsView,
    PzlErrorView,
> {
    if k == 0 {
        Ok(CliOptionsView { project_path: Some(v), ..o })
    } else {
        match bool_options_result(v, keys()[k], option_values(k)) {
            Err(e) => Err(e),
            Ok(flags) => Ok(with_flags(o, k, flags)),
        }
    }
}

/// The state of reading the options: the options so far and which of the
/// four options have been given.
pub struct ParserView {
    pub options: CliOptionsView,
    pub used: Seq<bool>,
}

/// The state before any argument.
pub open spec fn initial_parser() -> ParserView {
    ParserView { options: default_options(), used: seq![false, false, false, false] }
}

/// The state after the argument `arg`, or the error it gives: an argument
/// that gives none of the options a value, an option given twice, a value
/// with white space and an empty value are errors, and so is a value that the
/// option does not take.
pub open spec fn arg_step(s: ParserView, arg: Seq<char>) -> Result<ParserView, PzlErrorView> {
    match arg_key(arg) {
        None => Err(cli_error_value(MSG_UNKNOWN_OPTION@ + arg)),
        Some(k) => if s.used[k] {
            Err(cli_error_value(MSG_REPEATED_OPTION@ + keys()[k]))
        } else {
            let v = arg.skip(key_prefix(k).len() as int);
            if exists|i: int| 0 <= i < v.len() && unicode_white_space(#[trigger] v[i]) {
                Err(cli_error_value(MSG_ARGUMENT@ + arg + MSG_WHITESPACE@))
            } else if v.len() == 0 {
                Err(cli_error_value(MSG_ARGUMENT@ + keys()[k] + MSG_MISSING_VALUE@))
            } else {
                match apply_value(s.options, k, v) {
                    Ok(o) => Ok(ParserView { options: o, used: s.used.update(k, true) }),
                    Err(e) => Err(e),
                }
            }
        },
    }
}

/// The state after the arguments `args[..n]`, or the first error.
pub open spec fn args_state(args: Seq<Seq<char>>, n: int) -> Result<ParserView, PzlErrorView>
    decreases n,
{
    if n <= 0 {
        Ok(initial_parser())
    } else {
        match args_state(args, n - 1) {
            Ok(s) => arg_step(s, args[n - 1]),
            Err(e) => Err(e),
        }
    }
}

/// The options are complete: the project path is given.
pub open spec fn check_args_result(o: CliOptionsView) -> Result<CliOptionsView, PzlErrorView> {
    if o.project_path is None {
        Err(cli_error_value(MSG_MISSING_OPTION_HEAD@ + KEY_PATH@ + MSG_MISSING_OPTION_TAIL@))
    } else {
        Ok(o)
    }
}

/// The options that the arguments `args` of `build` give, or the error that
/// the first wrong argument gives, or the error for a missing project path.
pub open spec fn parse_result(args: Seq<Seq<char>>) -> Result<CliOptionsView, PzlErrorView> {
    match args_state(args, args.len() as int) {
        Ok(s) => check_args_result(s.options),
        Err(e) => Err(e),
    }
}

/// Reads the value `value` of the option `key`, which switches the options
/// `available` on and off.
pub fn with_bool_options(value: &str, key: &str, available: &Vec<&str>) -> (r: Result<
    Vec<bool>,
    PzlError,
>)
    requires
        forall|a: int, b: int|
            0 <= a < b < available@.len() ==> available@[a]@ != available@[b]@,
    ensures
        ({
            let avail = available@.map_values(|s: &str| s@);
            match r {
                Ok(flags) => bool_options_result(value@, key@, avail) == Ok::<
                    Seq<bool>,
                    PzlErrorView,
                >(flags@),
                Err(e) => bool_options_result(value@, key@, avail) == Err::<
                    Seq<bool>,
                    PzlErrorView,
                >(e@),
            }
        }),
{
    let ghost avail = available@.map_values(|s: &str| s@);
    let n = available.len();
    if str_eq(value, VALUE_ALL) {
        let mut flags: Vec<bool> = Vec::new();
        let mut j: usize = 0;
        while j < n
            invariant
                j <= n,
                flags@ =~= Seq::new(j as nat, |x: int| true),
            decreases n - j,
        {
            flags.push(true);
            j = j + 1;
        }
        return Ok(flags);
    }
    let mut flags: Vec<bool> = Vec::new();
    let mut j: usize = 0;
    while j < n
        invariant
            j <= n,
            flags@ =~= Seq::new(j as nat, |x: int| false),
        decreases n - j,
    {
        flags.push(false);
        j = j + 1;
    }
    if str_eq(value, VALUE_NONE) {
        return Ok(flags);
    }
    let owned = to_owned_string(value);
    let values = owned.split_to_vec(VALUE_SEPARATOR);
    let ghost vs = string_views(values@);
    proof {
        reveal_strlit(",");
        assert(VALUE_SEPARATOR@.len() == 1);
        assert(vs == split_seq(value@, VALUE_SEPARATOR@));
    }
    let mut i: usize = 0;
    while i < values.len()
        invariant
            i <= values@.len(),
            vs == string_views(values@),
            vs == split_seq(value@, VALUE_SEPARATOR@),
            value@ != VALUE_ALL@,
            value@ != VALUE_NONE@,
            avail == available@.map_values(|s: &str| s@),
            n == avail.len(),
            forall|a: int, b: int| 0 <= a < b < avail.len() ==> avail[a] != avail[b],
            flags@.len() == n,
            forall|x: int| 0 <= x < n ==> flags@[x] == vs.take(i as int).contains(#[trigger] avail[x]),
            first_bad_value(vs, avail, 0) == first_bad_value(vs, avail, i as int),
        decreases values.len() - i,
    {
        let v = values[i].as_str();
        assert(vs[i as int] == v@);
        // the index of `v` among the available values
        let mut x: usize = 0;
        while x < n && !str_eq(available[x], v)
            invariant
                x <= n == available@.len(),
                avail == available@.map_values(|s: &str| s@),
                forall|y: int| 0 <= y < x ==> avail[y] != v@,
            decreases n - x,
        {
            x = x + 1;
        }
        if x >= n {
            proof {
                assert(!avail.contains(v@)) by {
                    if avail.contains(v@) {
                        let y = choose|y: int| 0 <= y < avail.len() && avail[y] == v@;
                    }
                }
            }
            assert(first_bad_value(vs, avail, i as int) == Some(i as int));
            let mut msg = concat(key, ASSIGN);
            push_str(&mut msg, v);
            push_str(&mut msg, MSG_UNAVAILABLE_VALUE);
            return Err(cli_error(msg.as_str()));
        }
        assert(avail[x as int] == v@);
        if flags[x] {
            proof {
                assert(vs.take(i as int).contains(avail[x as int]));
                assert(vs.take(i as int).contains(vs[i as int]));
                assert(first_bad_value(vs, avail, i as int) == Some(i as int));
                assert(avail.contains(vs[i as int]));
            }
            let mut msg = concat(key, ASSIGN);
            push_str(&mut msg, v);
            push_str(&mut msg, MSG_REPEATED_VALUE);
            return Err(cli_error(msg.as_str()));
        }
        proof {
            assert(!vs.take(i as int).contains(vs[i as int])) by {
                if vs.take(i as int).contains(vs[i as int]) {
                    assert(vs.take(i as int).contains(avail[x as int]));
                }
            }
            assert(avail.contains(vs[i as int]));
        }
        flags.set(x, true);
        proof {
            assert(vs.take(i + 1) =~= vs.take(i as int).push(vs[i as int]));
            assert forall|y: int| 0 <= y < n implies flags@[y] == vs.take(i + 1).contains(
                #[trigger] avail[y],
            ) by {
                if y == x {
                    assert(vs.take(i + 1)[i as int] == avail[y]);
                } else {
                    if vs.take(i + 1).contains(avail[y]) && !vs.take(i as int).contains(avail[y]) {
                        let w = choose|w: int| 0 <= w < i + 1 && #[trigger] vs.take(i + 1)[w] == avail[y];
                        if w < i {
                            assert(vs.take(i as int)[w] == avail[y]);
                        }
                    }
                    if vs.take(i as int).contains(avail[y]) {
                        let w = choose|w: int| 0 <= w < i && #[trigger] vs.take(i as int)[w] == avail[y];
                        assert(vs.take(i + 1)[w] == avail[y]);
                    }
                }
            }
        }
        i = i + 1;
    }
    proof {
        assert(vs.take(vs.len() as int) =~= vs);
        assert(flags@ =~= Seq::new(avail.len(), |j: int| vs.contains(avail[j])));
    }
    Ok(flags)
}

/// The state of reading the options of `build`: the options so far and which
/// of `--path`, `--features`, `--exports`, `--infos` have been given.
pub struct CliParser {
    pub options: CliOptions,
    pub used: Vec<bool>,
}

impl View for CliParser {
    type V = ParserView;

    open spec fn view(&self) -> ParserView {
        ParserView { options: self.options@, used: self.used@ }
    }
}

/// The state after one more argument that the option `k` is given with.
fn mark_used(used: &Vec<bool>, k: usize) -> (r: Vec<bool>)
    requires
        k < used@.len(),
    ensures
        r@ == used@.update(k as int, true),
{
    let mut r = used.clone();
    r.set(k, true);
    r
}

/// The options `o` after `--features`, `--exports` or `--infos` (`k`) switch
/// their options to `flags`.
fn set_flags(o: &mut CliOptions, k: usize, flags: &Vec<bool>)
    requires
        1 <= k <= 3,
        flags@.len() == option_values(k as int).len(),
    ensures
        final(o)@ == with_flags(old(o)@, k as int, flags@),
{
    if k == 1 {
        o.enable_ansi_color = flags[0];
    } else if k == 2 {
        o.enable_export_ast = flags[0];
    } else {
        o.enable_info_progress = flags[0];
        o.enable_info_ignore = flags[1];
        o.enable_info_file = flags[2];
    }
}

/// Reads the value of an option `k` that switches options on and off.
fn parse_bool_options(options: &mut CliOptions, k: usize, value: &str) -> (r: Result<(), PzlError>)
    requires
        1 <= k <= 3,
    ensures
        match r {
            Ok(_) => apply_value(old(options)@, k as int, value@) == Ok::<
                CliOptionsView,
                PzlErrorView,
            >(final(options)@),
            Err(e) => apply_value(old(options)@, k as int, value@) == Err::<
                CliOptionsView,
                PzlErrorView,
            >(e@),
        },
{
    let available = available_values(k);
    match with_bool_options(value, key_name(k), &available) {
        Err(e) => Err(e),
        Ok(flags) => {
            proof {
                if value@ == VALUE_ALL@ {
                } else if value@ == VALUE_NONE@ {
                } else {
                    let vs = split_seq(value@, VALUE_SEPARATOR@);
                    assert(first_bad_value(vs, option_values(k as int), 0) is None);
                }
            }
            set_flags(options, k, &flags);
            Ok(())
        },
    }
}

/// Reads the value of `--features`: `ansi-color`, `all` or `none`.
fn parse_features_options(options: &mut CliOptions, value: &str) -> (r: Result<(), PzlError>)
    ensures
        match r {
            Ok(_) => apply_value(old(options)@, 1, value@) == Ok::<CliOptionsView, PzlErrorView>(
                final(options)@,
            ),
            Err(e) => apply_value(old(options)@, 1, value@) == Err::<CliOptionsView, PzlErrorView>(
                e@,
            ),
        },
{
    parse_bool_options(options, 1, value)
}

/// Reads the value of `--exports`: `ast`, `all` or `none`.
fn parse_exports_options(options: &mut CliOptions, value: &str) -> (r: Result<(), PzlError>)
    ensures
        match r {
            Ok(_) => apply_value(old(options)@, 2, value@) == Ok::<CliOptionsView, PzlErrorView>(
                final(options)@,
            ),
            Err(e) => apply_value(old(options)@, 2, value@) == Err::<CliOptionsView, PzlErrorView>(
                e@,
            ),
        },
{
    parse_bool_options(options, 2, value)
}

/// Reads the value of `--infos`: a list of `progress`, `ignore` and `file`,
/// or `all` or `none`.
fn parse_infos_options(options: &mut CliOptions, value: &str) -> (r: Result<(), PzlError>)
    ensures
        match r {
            Ok(_) => apply_value(old(options)@, 3, value@) == Ok::<CliOptionsView, PzlErrorView>(
                final(options)@,
            ),
            Err(e) => apply_value(old(options)@, 3, value@) == Err::<CliOptionsView, PzlErrorView>(
                e@,
            ),
        },
{
    parse_bool_options(options, 3, value)
}

/// The option that the argument `arg` gives a value to.
fn find_key(arg: &str) -> (r: Option<usize>)
    ensures
        match r {
            Some(k) => arg_key(arg@) == Some(k as int),
            None => arg_key(arg@) is None,
        },
{
    let p0 = concat(KEY_PATH, ASSIGN);
    if starts_with(arg, p0.as_str()) {
        return Some(0);
    }
    let p1 = concat(KEY_FEATURES, ASSIGN);
    if starts_with(arg, p1.as_str()) {
        return Some(1);
    }
    let p2 = concat(KEY_EXPORTS, ASSIGN);
    if starts_with(arg, p2.as_str()) {
        return Some(2);
    }
    let p3 = concat(KEY_INFOS, ASSIGN);
    if starts_with(arg, p3.as_str()) {
        return Some(3);
    }
    None
}

/// The name of the option `k`.
fn key_name(k: usize) -> (r: &'static str)
    requires
        k < 4,
    ensures
        r@ == keys()[k as int],
{
    if k == 0 {
        KEY_PATH
    } else if k == 1 {
        KEY_FEATURES
    } else if k == 2 {
        KEY_EXPORTS
    } else {
        KEY_INFOS
    }
}

/// The values that the option `k` can list.
fn available_values(k: usize) -> (r: Vec<&'static str>)
    requires
        1 <= k <= 3,
    ensures
        r@.map_values(|s: &str| s@) == option_values(k as int),
        forall|a: int, b: int| 0 <= a < b < r@.len() ==> r@[a]@ != r@[b]@,
{
    proof {
        reveal_strlit("ansi-color");
        reveal_strlit("ast");
        reveal_strlit("progress");
        reveal_strlit("ignore");
        reveal_strlit("file");
    }
    let r = if k == 1 {
        vec![OPTION_ANSI_COLOR]
    } else if k == 2 {
        vec![OPTION_AST]
    } else {
        vec![OPTION_PROGRESS, OPTION_IGNORE, OPTION_FILE]
    };
    assert(r@.map_values(|s: &str| s@) =~= option_values(k as int));
    assert(OPTION_PROGRESS@.len() == 8);
    assert(OPTION_IGNORE@.len() == 6);
    assert(OPTION_FILE@.len() == 4);
    r
}

/// The length of what an argument for the option `k` begins with.
fn key_prefix_len(k: usize) -> (r: usize)
    requires
        k < 4,
    ensures
        r == key_prefix(k as int).len(),
{
    proof {
        reveal_strlit("=");
        reveal_strlit("--path");
        reveal_strlit("--features");
        reveal_strlit("--exports");
        reveal_strlit("--infos");
    }
    if k == 0 {
        7
    } else if k == 1 {
        11
    } else if k == 2 {
        10
    } else {
        8
    }
}

impl CliParser {
    /// The state before any argument.
    pub fn new() -> (r: Self)
        ensures
            r@ == initial_parser(),
    {
        let used = vec![false, false, false, false];
        assert(used@ =~= seq![false, false, false, false]);
        CliParser { options: CliOptions::default(), used }
    }

    /// Reads one argument of `build`; on success, tells whether it gave the
    /// project path (which the caller then finds on disk).
    pub fn parse_cli_arg(&mut self, arg: &str) -> (r: Result<bool, PzlError>)
        requires
            old(self).used@.len() == 4,
        ensures
            final(self).used@.len() == 4,
            match r {
                Ok(is_path) => arg_step(old(self)@, arg@) == Ok::<ParserView, PzlErrorView>(
                    final(self)@,
                ) && is_path == (arg_key(arg@) == Some(0int)),
                Err(e) => arg_step(old(self)@, arg@) == Err::<ParserView, PzlErrorView>(e@),
            },
    {
        let k = match find_key(arg) {
            Some(k) => k,
            None => {
                let msg = concat(MSG_UNKNOWN_OPTION, arg);
                return Err(cli_error(msg.as_str()));
            },
        };
        let key = key_name(k);
        if self.used[k] {
            let msg = concat(MSG_REPEATED_OPTION, key);
            return Err(cli_error(msg.as_str()));
        }
        let cs = chars_of(arg);
        let prefix_len = key_prefix_len(k);
        proof {
            assert(begins_with(arg@, key_prefix(k as int)));
        }
        let value = string_of_chars(&cs, prefix_len, cs.len());
        proof {
            assert(value@ == arg@.skip(prefix_len as int));
        }
        if has_whitespace(value.as_str()) {
            let mut msg = concat(MSG_ARGUMENT, arg);
            push_str(&mut msg, MSG_WHITESPACE);
            return Err(cli_error(msg.as_str()));
        }
        if value.as_str().is_empty() {
            let mut msg = concat(MSG_ARGUMENT, key);
            push_str(&mut msg, MSG_MISSING_VALUE);
            return Err(cli_error(msg.as_str()));
        }
        if k == 0 {
            self.options.project_path = Some(value);
        } else if k == 1 {
            parse_features_options(&mut self.options, value.as_str())?;
        } else if k == 2 {
            parse_exports_options(&mut self.options, value.as_str())?;
        } else {
            parse_infos_options(&mut self.options, value.as_str())?;
        }
        self.used = mark_used(&self.used, k);
        Ok(k == 0)
    }
}

/// Checks that the options are complete: the project path is given.
pub fn check_args(options: &CliOptions) -> (r: Result<(), PzlError>)
    ensures
        match r {
            Ok(_) => check_args_result(options@) == Ok::<CliOptionsView, PzlErrorView>(options@),
            Err(e) => check_args_result(options@) == Err::<CliOptionsView, PzlErrorView>(e@),
        },
{
    if !options.is_exists_project_path() {
        let mut msg = concat(MSG_MISSING_OPTION_HEAD, KEY_PATH);
        push_str(&mut msg, MSG_MISSING_OPTION_TAIL);
        return Err(cli_error(msg.as_str()));
    }
    Ok(())
}

/// Reads the arguments `args` of `build`, taking the project path as given.
pub fn parse_cli_args(args: &Vec<String>) -> (r: Result<CliOptions, PzlError>)
    ensures
        match r {
            Ok(o) => parse_result(args@.map_values(|a: String| a@)) == Ok::<
                CliOptionsView,
                PzlErrorView,
            >(o@),
            Err(e) => parse_result(args@.map_values(|a: String| a@)) == Err::<
                CliOptionsView,
                PzlErrorView,
            >(e@),
        },
{
    let ghost views = args@.map_values(|a: String| a@);
    let mut parser = CliParser::new();
    let mut i: usize = 0;
    while i < args.len()
        invariant
            i <= args@.len(),
            views == args@.map_values(|a: String| a@),
            parser.used@.len() == 4,
            args_state(views, i as int) == Ok::<ParserView, PzlErrorView>(parser@),
        decreases args.len() - i,
    {
        assert(views[i as int] == args@[i as int]@);
        match parser.parse_cli_arg(args[i].as_str()) {
            Ok(_) => {},
            Err(e) => {
                proof {
                    lemma_args_state_stays_failed(views, i + 1, args@.len() as int);
                }
                return Err(e);
            },
        }
        i = i + 1;
    }
    check_args(&parser.options)?;
    Ok(parser.options)
}

/// Once an argument fails, reading more arguments keeps that error.
pub proof fn lemma_args_state_stays_failed(args: Seq<Seq<char>>, n: int, m: int)
    requires
        n <= m,
        args_state(args, n) is Err,
    ensures
        args_state(args, m) == args_state(args, n),
    decreases m - n,
{
    if n < m {
        lemma_args_state_stays_failed(args, n, m - 1);
    }
}

/// The error for a project path that names no directory: the path's final
/// component, as `Debug` writes a path component, and ` 项目不存在`.
pub fn project_not_found(path: &String) -> (e: PzlError)
    requires
        path_file_name(path@) is Some,
    ensures
        e@ == cli_error_value(debug_path_quoted(path_file_name(path@).unwrap()) + MSG_NO_PROJECT@),
{
    let name = path.file_name_string();
    let mut msg = debug_path(name.as_str());
    push_str(&mut msg, MSG_NO_PROJECT);
    cli_error(msg.as_str())
}

/// Once an argument has given an option its value, the option stays given.
proof fn lemma_used_stays(args: Seq<Seq<char>>, i: int, n: int)
    requires
        0 <= i < n,
        arg_key(args[i]) is Some,
        args_state(args, n) is Ok,
    ensures
        args_state(args, n)->Ok_0.used.len() == 4,
        args_state(args, n)->Ok_0.used[arg_key(args[i]).unwrap()],
    decreases n,
{
    lemma_args_state_ok_prefix(args, n - 1, n);
    lemma_used_len(args, n);
    lemma_used_len(args, n - 1);
    let s = args_state(args, n - 1)->Ok_0;
    let t = args_state(args, n)->Ok_0;
    assert(arg_step(s, args[n - 1]) == args_state(args, n));
    let kn = arg_key(args[n - 1]).unwrap();
    assert(t.used == s.used.update(kn, true));
    if i < n - 1 {
        lemma_used_stays(args, i, n - 1);
    }
}

/// The state after any arguments records each of the four options.
proof fn lemma_used_len(args: Seq<Seq<char>>, n: int)
    requires
        args_state(args, n) is Ok,
    ensures
        args_state(args, n)->Ok_0.used.len() == 4,
    decreases n,
{
    if n > 0 {
        lemma_args_state_ok_prefix(args, n - 1, n);
        lemma_used_len(args, n - 1);
    }
}

/// Where reading arguments succeeds, reading fewer of them succeeds too.
proof fn lemma_args_state_ok_prefix(args: Seq<Seq<char>>, m: int, n: int)
    requires
        m <= n,
        args_state(args, n) is Ok,
    ensures
        args_state(args, m) is Ok,
    decreases n - m,
{
    if m < n {
        if args_state(args, m) is Err {
            lemma_args_state_stays_failed(args, m, n);
        }
    }
}

/// No option can be given twice: arguments that give one option a value
/// twice are refused.
pub proof fn lemma_repeated_option_refused(args: Seq<Seq<char>>, i: int, j: int)
    requires
        0 <= i < j < args.len(),
        arg_key(args[i]) is Some,
        arg_key(args[i]) == arg_key(args[j]),
    ensures
        parse_result(args) is Err,
{
    if args_state(args, j) is Ok {
        lemma_used_stays(args, i, j);
        assert(args_state(args, j + 1) is Err);
        lemma_args_state_stays_failed(args, j + 1, args.len() as int);
    } else {
        lemma_args_state_stays_failed(args, j, args.len() as int);
    }
}

/// Two arguments for different options can be read in either order.
proof fn lemma_steps_commute(s: ParserView, a: Seq<char>, b: Seq<char>)
    requires
        s.used.len() == 4,
        arg_key(a) is Some,
        arg_key(b) is Some,
        arg_key(a) != arg_key(b),
        arg_step(s, a) is Ok,
        arg_step(arg_step(s, a)->Ok_0, b) is Ok,
    ensures
        arg_step(s, b) is Ok,
        arg_step(arg_step(s, b)->Ok_0, a) == arg_step(arg_step(s, a)->Ok_0, b),
{
    let ka = arg_key(a).unwrap();
    let kb = arg_key(b).unwrap();
    let sa = arg_step(s, a)->Ok_0;
    let sb = arg_step(s, b)->Ok_0;
    assert(sa.used == s.used.update(ka, true));
    assert(sb.used == s.used.update(kb, true));
    assert(sb.used.update(ka, true) =~= sa.used.update(kb, true));
}

/// The state after the arguments `args[..n]` depends on those arguments only.
proof fn lemma_args_state_prefix(args: Seq<Seq<char>>, other: Seq<Seq<char>>, n: int)
    requires
        0 <= n <= args.len(),
        n <= other.len(),
        forall|k: int| 0 <= k < n ==> args[k] == other[k],
    ensures
        args_state(args, n) == args_state(other, n),
    decreases n,
{
    if n > 0 {
        lemma_args_state_prefix(args, other, n - 1);
    }
}

/// The state after the arguments `args[..n]`, from the state after `args[..m]`,
/// depends on `args[m..n]` only.
proof fn lemma_args_state_suffix(args: Seq<Seq<char>>, other: Seq<Seq<char>>, m: int, n: int)
    requires
        0 <= m <= n <= args.len(),
        n <= other.len(),
        args_state(args, m) == args_state(other, m),
        forall|k: int| m <= k < n ==> args[k] == other[k],
    ensures
        args_state(args, n) == args_state(other, n),
    decreases n - m,
{
    if m < n {
        lemma_args_state_suffix(args, other, m, n - 1);
    }
}

/// The order of the arguments does not matter: where the arguments of
/// `build` are read without error, swapping two neighbouring ones gives the
/// same options.
pub proof fn lemma_parse_order_independent(args: Seq<Seq<char>>, i: int)
    requires
        0 <= i < i + 1 < args.len(),
        parse_result(args) is Ok,
    ensures
        parse_result(args.update(i, args[i + 1]).update(i + 1, args[i])) == parse_result(args),
{
    let other = args.update(i, args[i + 1]).update(i + 1, args[i]);
    let n = args.len() as int;
    if args_state(args, n) is Err {
        assert(false);
    }
    lemma_args_state_ok_prefix(args, i + 2, n);
    lemma_args_state_ok_prefix(args, i, n);
    lemma_args_state_prefix(args, other, i);
    lemma_used_len(args, i);
    let s = args_state(args, i)->Ok_0;
    let a = args[i];
    let b = args[i + 1];
    assert(other[i] == b);
    assert(other[i + 1] == a);
    assert(args_state(args, i + 1) == arg_step(s, a));
    lemma_args_state_ok_prefix(args, i + 1, n);
    assert(arg_step(s, a) is Ok);
    assert(args_state(args, i + 2) == arg_step(arg_step(s, a)->Ok_0, b));
    assert(arg_key(a) is Some);
    assert(arg_key(b) is Some);
    if arg_key(a) == arg_key(b) {
        lemma_repeated_option_refused(args, i, i + 1);
    }
    lemma_steps_commute(s, a, b);
    assert(args_state(other, i + 1) == arg_step(s, b));
    assert(args_state(other, i + 2) == args_state(args, i + 2));
    lemma_args_state_suffix(args, other, i + 2, n);
}

/// The state after all of the arguments `args`, or the first error.
pub open spec fn state_of(args: Seq<Seq<char>>) -> Result<ParserView, PzlErrorView> {
    args_state(args, args.len() as int)
}

/// Reading one argument more.
proof fn lemma_state_push(s: Seq<Seq<char>>, a: Seq<char>)
    ensures
        state_of(s.push(a)) == match state_of(s) {
            Ok(st) => arg_step(st, a),
            Err(e) => Err(e),
        },
{
    lemma_args_state_prefix(s.push(a), s, s.len() as int);
}

/// Where the arguments are read without error, an argument can be moved from
/// the end to any earlier place.
proof fn lemma_move_to_end(u: Seq<Seq<char>>, w: Seq<Seq<char>>, x: Seq<char>)
    requires
        state_of(u + w.push(x)) is Ok,
    ensures
        state_of(u + seq![x] + w) == state_of(u + w.push(x)),
    decreases w.len(),
{
    if w.len() == 0 {
        assert(u + seq![x] + w =~= u + w.push(x));
    } else {
        let y = w.last();
        let w1 = w.drop_last();
        let c = u + w1;
        assert(u + w.push(x) =~= c.push(y).push(x));
        lemma_state_push(c.push(y), x);
        lemma_state_push(c, y);
        if state_of(c) is Err {
            assert(false);
        }
        lemma_used_len(c, c.len() as int);
        let s = state_of(c)->Ok_0;
        let sy = arg_step(s, y)->Ok_0;
        assert(arg_key(y) is Some);
        assert(arg_key(x) is Some);
        assert(sy.used == s.used.update(arg_key(y).unwrap(), true));
        lemma_steps_commute(s, y, x);
        lemma_state_push(c, x);
        lemma_state_push(c.push(x), y);
        assert(c.push(x) =~= u + w1.push(x));
        lemma_move_to_end(u, w1, x);
        let v = u + seq![x] + w1;
        lemma_state_push(v, y);
        assert(u + seq![x] + w =~= v.push(y));
    }
}

/// Where the arguments `a` are read without error, any reordering `b` of them
/// is read to the same state.
proof fn lemma_state_permutation(a: Seq<Seq<char>>, b: Seq<Seq<char>>)
    requires
        a.to_multiset() == b.to_multiset(),
        state_of(a) is Ok,
    ensures
        state_of(b) == state_of(a),
    decreases a.len(),
{
    broadcast use vstd::seq_lib::group_to_multiset_ensures;

    if a.len() == 0 {
        assert(b.len() == b.to_multiset().len());
        assert(b =~= a);
    } else {
        let x = a.last();
        let a1 = a.drop_last();
        assert(a =~= a1.push(x));
        assert(a.to_multiset() =~= a1.to_multiset().insert(x));
        assert(b.to_multiset().count(x) > 0);
        assert(b.contains(x));
        let j = choose|j: int| 0 <= j < b.len() && b[j] == x;
        let b1 = b.remove(j);
        assert(b1.to_multiset() =~= b.to_multiset().remove(x));
        assert(b1.to_multiset() =~= a1.to_multiset());
        lemma_state_push(a1, x);
        if state_of(a1) is Err {
            assert(false);
        }
        lemma_state_permutation(a1, b1);
        let u = b.take(j);
        let w = b.skip(j + 1);
        assert(b1 =~= u + w);
        assert(u + w.push(x) =~= b1.push(x));
        lemma_state_push(b1, x);
        lemma_move_to_end(u, w, x);
        assert(b =~= u + seq![x] + w);
    }
}

/// The order of the arguments does not matter: where the arguments of
/// `build` are read without error, every reordering of them is read to the
/// same options.
pub proof fn lemma_parse_permutation(a: Seq<Seq<char>>, b: Seq<Seq<char>>)
    requires
        a.to_multiset() == b.to_multiset(),
        parse_result(a) is Ok,
    ensures
        parse_result(b) == parse_result(a),
{
    if state_of(a) is Err {
        assert(false);
    }
    lemma_state_permutation(a, b);
}

/// The part of the options that the option `k` sets is as it is before any
/// argument: no project path, or its switches off.
pub open spec fn option_default(o: CliOptionsView, k: int) -> bool {
    if k == 0 {
        o.project_path is None
    } else if k == 1 {
        !o.enable_ansi_color
    } else if k == 2 {
        !o.enable_export_ast
    } else {
        !o.enable_info_progress && !o.enable_info_ignore && !o.enable_info_file
    }
}

/// Arguments for other options leave the part of the option `k` as it was.
proof fn lemma_untouched(args: Seq<Seq<char>>, n: int, k: int)
    requires
        0 <= k < 4,
        0 <= n <= args.len(),
        forall|i: int| 0 <= i < n ==> arg_key(#[trigger] args[i]) != Some(k),
        args_state(args, n) is Ok,
    ensures
        option_default(args_state(args, n)->Ok_0.options, k),
    decreases n,
{
    if n > 0 {
        lemma_args_state_ok_prefix(args, n - 1, n);
        lemma_untouched(args, n - 1, k);
        assert(arg_key(args[n - 1]) != Some(k));
    }
}

/// An option that is not given keeps its default: its switches stay off, as
/// the help text says of `none`.
pub proof fn lemma_options_off_by_default(args: Seq<Seq<char>>, k: int)
    requires
        1 <= k < 4,
        forall|i: int| 0 <= i < args.len() ==> arg_key(#[trigger] args[i]) != Some(k),
        parse_result(args) is Ok,
    ensures
        option_default(parse_result(args)->Ok_0, k),
{
    let n = args.len() as int;
    if args_state(args, n) is Err {
        assert(false);
    }
    lemma_untouched(args, n, k);
}

/// The project path is required: reading the arguments of `build` succeeds
/// only where one of them gives `--path` its value.
pub proof fn lemma_path_required(args: Seq<Seq<char>>)
    requires
        parse_result(args) is Ok,
    ensures
        exists|i: int| 0 <= i < args.len() && arg_key(#[trigger] args[i]) == Some(0int),
{
    let n = args.len() as int;
    if args_state(args, n) is Err {
        assert(false);
    }
    if !(exists|i: int| 0 <= i < args.len() && arg_key(#[trigger] args[i]) == Some(0int)) {
        lemma_untouched(args, n, 0);
    }
}

} // verus!
