//! Command-line options: the table of known flags, the parsed option set,
//! and the usage rows the help screen prints.

use vstd::prelude::*;

use crate::bytes::{byte_lit, eq_ignore_case, eq_ignore_case_spec, spaces};
use vstd::string::StringSliceAdditionalSpecFns;

verus! {

/// What recognising a flag does to the option set.
#[derive(Clone, Copy, Debug, PartialEq, Eq, Structural)]
pub enum OptionAction {
    /// Show the help screen.
    ShowHelp,
    /// Filter the log to error entries.
    OnlyErrors,
    /// Use the given configuration file path.
    SetConfigPath,
    /// Write the configuration out and continue.
    EjectConfig,
    /// Print the loaded rules and exit.
    DumpRules,
    /// Make the named rule active.
    SetActiveRule,
}

/// One recognised command-line option.
#[derive(Clone, Debug, PartialEq)]
pub struct KnownOption {
    pub name: Vec<u8>,
    pub long: Option<Vec<u8>>,
    pub short: Option<u8>,
    pub desc: Option<Vec<u8>>,
    pub needs_value: bool,
    pub activate: Option<OptionAction>,
}

/// Mathematical view of a [`KnownOption`].
pub ghost struct KnownOptionModel {
    pub name: Seq<u8>,
    pub long: Option<Seq<u8>>,
    pub short: Option<u8>,
    pub desc: Option<Seq<u8>>,
    pub needs_value: bool,
    pub activate: Option<OptionAction>,
}

impl View for KnownOption {
    type V = KnownOptionModel;

    open spec fn view(&self) -> KnownOptionModel {
        KnownOptionModel {
            name: self.name@,
            long: match self.long {
                Some(ref l) => Some(l@),
                None => None,
            },
            short: self.short,
            desc: match self.desc {
                Some(ref d) => Some(d@),
                None => None,
            },
            needs_value: self.needs_value,
            activate: self.activate,
        }
    }
}

impl KnownOption {
    /// A bare option with only a name.
    pub fn new(name: Vec<u8>) -> (r: Self)
        ensures
            r@ == (KnownOptionModel {
                name: name@,
                long: None,
                short: None,
                desc: None,
                needs_value: false,
                activate: None,
            }),
    {
        KnownOption {
            name,
            long: None,
            short: None,
            desc: None,
            needs_value: false,
            activate: None,
        }
    }

    /// The option with its long flag set.
    pub fn with_long(self, s: Vec<u8>) -> (r: Self)
        ensures
            r@ == (KnownOptionModel { long: Some(s@), ..self@ }),
    {
        KnownOption { long: Some(s), ..self }
    }

    /// The option with its short flag set.
    pub fn with_short(self, ch: u8) -> (r: Self)
        ensures
            r@ == (KnownOptionModel { short: Some(ch), ..self@ }),
    {
        KnownOption { short: Some(ch), ..self }
    }

    /// The option with its description set.
    pub fn with_desc(self, v: Vec<u8>) -> (r: Self)
        ensures
            r@ == (KnownOptionModel { desc: Some(v@), ..self@ }),
    {
        KnownOption { desc: Some(v), ..self }
    }

    /// The option with its takes-a-value flag set.
    pub fn with_value_required(self, v: bool) -> (r: Self)
        ensures
            r@ == (KnownOptionModel { needs_value: v, ..self@ }),
    {
        KnownOption { needs_value: v, ..self }
    }

    /// The option with the action it triggers.
    pub fn with_activate(self, a: OptionAction) -> (r: Self)
        ensures
            r@ == (KnownOptionModel { activate: Some(a), ..self@ }),
    {
        KnownOption { activate: Some(a), ..self }
    }
}

/// The application options parsed from the command line.
#[derive(Clone, Debug, PartialEq)]
pub struct AppOptions {
    /// Scanner mode: standard input is not a terminal.
    pub stdin: bool,
    /// Show the help screen and exit.
    pub show_help: bool,
    /// Show only error-tagged entries.
    pub show_only_errors: bool,
    /// Use this configuration file instead of the discovered one.
    pub config_path: Option<Vec<u8>>,
    /// Write the configuration out and continue.
    pub eject_config: bool,
    /// Print the loaded rules and exit.
    pub dump_rules: bool,
    /// Alias of the rule to activate.
    pub active_rule: Vec<u8>,
    /// The remaining arguments, forwarded to the build command.
    pub build_args: Vec<Vec<u8>>,
}

/// Mathematical view of an [`AppOptions`].
pub ghost struct AppOptionsModel {
    pub stdin: bool,
    pub show_help: bool,
    pub show_only_errors: bool,
    pub config_path: Option<Seq<u8>>,
    pub eject_config: bool,
    pub dump_rules: bool,
    pub active_rule: Seq<u8>,
    pub build_args: Seq<Seq<u8>>,
}

impl View for AppOptions {
    type V = AppOptionsModel;

    open spec fn view(&self) -> AppOptionsModel {
        AppOptionsModel {
            stdin: self.stdin,
            show_help: self.show_help,
            show_only_errors: self.show_only_errors,
            config_path: match self.config_path {
                Some(ref p) => Some(p@),
                None => None,
            },
            eject_config: self.eject_config,
            dump_rules: self.dump_rules,
            active_rule: self.active_rule@,
            build_args: self.build_args@.map_values(|a: Vec<u8>| a@),
        }
    }
}

/// Which flag an argument is, if any.
pub open spec fn flag_of(arg: Seq<u8>) -> Option<(OptionAction, bool)> {
    if eq_ignore_case_spec(arg, ("--help").spec_bytes()) || arg == seq![45u8, 104u8] {
        Some((OptionAction::ShowHelp, false))
    } else if eq_ignore_case_spec(arg, ("--only-errors").spec_bytes()) || arg == seq![45u8, 69u8] {
        Some((OptionAction::OnlyErrors, false))
    } else if eq_ignore_case_spec(arg, ("--config").spec_bytes()) {
        Some((OptionAction::SetConfigPath, true))
    } else if eq_ignore_case_spec(arg, ("--eject-config").spec_bytes()) {
        Some((OptionAction::EjectConfig, false))
    } else if eq_ignore_case_spec(arg, ("--dump-rules").spec_bytes()) {
        Some((OptionAction::DumpRules, false))
    } else if eq_ignore_case_spec(arg, ("--active-rule").spec_bytes()) {
        Some((OptionAction::SetActiveRule, true))
    } else {
        None
    }
}

/// The option set after one action is applied.
pub open spec fn apply_action(
    st: AppOptionsModel,
    a: OptionAction,
    v: Option<Seq<u8>>,
) -> AppOptionsModel {
    match a {
        OptionAction::ShowHelp => AppOptionsModel { show_help: true, ..st },
        OptionAction::OnlyErrors => AppOptionsModel { show_only_errors: true, ..st },
        OptionAction::SetConfigPath => AppOptionsModel { config_path: v, ..st },
        OptionAction::EjectConfig => AppOptionsModel { eject_config: true, ..st },
        OptionAction::DumpRules => AppOptionsModel { dump_rules: true, ..st },
        OptionAction::SetActiveRule => match v {
            Some(name) => AppOptionsModel { active_rule: name, ..st },
            None => st,
        },
    }
}

/// The option set after the remaining arguments are parsed: `--` forwards
/// everything after it, a recognised flag is consumed (with its value when
/// it takes one), and anything else becomes a build argument.
pub open spec fn parse_rest(st: AppOptionsModel, args: Seq<Seq<u8>>) -> AppOptionsModel
    decreases args.len(),
{
    if args.len() == 0 {
        st
    } else if args[0] == seq![45u8, 45u8] {
        AppOptionsModel { build_args: st.build_args + args.drop_first(), ..st }
    } else {
        match flag_of(args[0]) {
            Some(fa) => if fa.1 {
                if args.len() >= 2 {
                    parse_rest(apply_action(st, fa.0, Some(args[1])), args.skip(2))
                } else {
                    parse_rest(apply_action(st, fa.0, None), args.skip(1))
                }
            } else {
                parse_rest(apply_action(st, fa.0, None), args.drop_first())
            },
            None => parse_rest(
                AppOptionsModel { build_args: st.build_args.push(args[0]), ..st },
                args.drop_first(),
            ),
        }
    }
}

/// The starting option set: scanner mode when standard input is piped in,
/// the default rule active, nothing else set.
pub open spec fn initial_options(stdin_is_terminal: bool) -> AppOptionsModel {
    AppOptionsModel {
        stdin: !stdin_is_terminal,
        show_help: false,
        show_only_errors: false,
        config_path: None,
        eject_config: false,
        dump_rules: false,
        active_rule: ("rust").spec_bytes(),
        build_args: Seq::empty(),
    }
}

/// The arguments with a leading token equal to the package name consumed.
pub open spec fn without_pkg_token(args: Seq<Seq<u8>>, pkg: Seq<u8>) -> Seq<Seq<u8>> {
    if args.len() > 0 && args[0] == pkg {
        args.drop_first()
    } else {
        args
    }
}

impl AppOptions {
    /// Parse the command-line arguments (the program name already
    /// removed): consume an optional leading package-name token, apply
    /// every recognised flag, keep the rest as build arguments, and
    /// forward everything after `--` untouched.
    pub fn parse_args(args: Vec<Vec<u8>>, pkg_name: &Vec<u8>, stdin_is_terminal: bool) -> (r:
        AppOptions)
        ensures
            r@ == parse_rest(
                initial_options(stdin_is_terminal),
                without_pkg_token(args@.map_values(|a: Vec<u8>| a@), pkg_name@),
            ),
    {
        let ghost av0 = args@.map_values(|a: Vec<u8>| a@);
        let mut r = AppOptions {
            stdin: !stdin_is_terminal,
            show_help: false,
            show_only_errors: false,
            config_path: None,
            eject_config: false,
            dump_rules: false,
            active_rule: byte_lit("rust"),
            build_args: Vec::new(),
        };
        proof {
            assert(r@.build_args =~= Seq::<Seq<u8>>::empty());
            assert(r@ == initial_options(stdin_is_terminal));
        }
        let n = args.len();
        let mut i: usize = 0;
        if n > 0 && bytes_eq(&args[0], pkg_name) {
            i = 1;
        }
        let ghost av = without_pkg_token(av0, pkg_name@);
        proof {
            if av0.len() > 0 && av0[0] == pkg_name@ {
                assert(av =~= av0.skip(1));
            } else {
                assert(av =~= av0.skip(0));
            }
        }
        let ghost target = parse_rest(r@, av);
        let dashes = two_bytes(45, 45);
        let h_long = byte_lit("--help");
        let h_short = two_bytes(45, 104);
        let e_long = byte_lit("--only-errors");
        let e_short = two_bytes(45, 69);
        let cfg = byte_lit("--config");
        let eject = byte_lit("--eject-config");
        let dump = byte_lit("--dump-rules");
        let act = byte_lit("--active-rule");
        while i < n
            invariant
                0 <= i <= n == args@.len(),
                av0 == args@.map_values(|a: Vec<u8>| a@),
                h_short@ == seq![45u8, 104u8],
                e_short@ == seq![45u8, 69u8],
                dashes@ == seq![45u8, 45u8],
                h_long@ == ("--help").spec_bytes(),
                e_long@ == ("--only-errors").spec_bytes(),
                cfg@ == ("--config").spec_bytes(),
                eject@ == ("--eject-config").spec_bytes(),
                dump@ == ("--dump-rules").spec_bytes(),
                act@ == ("--active-rule").spec_bytes(),
                target == parse_rest(r@, av0.skip(i as int)),
                target == parse_rest(
                    initial_options(stdin_is_terminal),
                    without_pkg_token(av0, pkg_name@),
                ),
            decreases n - i,
        {
            let ghost st = r@;
            let ghost rest = av0.skip(i as int);
            proof {
                assert(rest[0] == av0[i as int]);
                assert(rest.drop_first() =~= av0.skip(i + 1));
            }
            let arg = &args[i];
            if bytes_eq(arg, &dashes) {
                let mut j = i + 1;
                let ghost fwd = st.build_args;
                while j < n
                    invariant
                        i + 1 <= j <= n == args@.len(),
                        av0 == args@.map_values(|a: Vec<u8>| a@),
                        r@ == (AppOptionsModel {
                            build_args: fwd + av0.skip(i + 1).take(j - i - 1),
                            ..st
                        }),
                    decreases n - j,
                {
                    let ghost before = r@.build_args;
                    let a = crate::bytes::clone_bytes(&args[j]);
                    r.build_args.push(a);
                    proof {
                        assert(r@.build_args =~= before.push(av0[j as int]));
                        assert(av0.skip(i + 1).take(j - i) =~= av0.skip(i + 1).take(j - i - 1).push(
                            av0[j as int],
                        ));
                    }
                    j = j + 1;
                }
                proof {
                    assert(av0.skip(i + 1).take(n - i - 1) =~= av0.skip(i + 1));
                    assert(r@ == parse_rest(st, rest));
                }
                return r;
            }
            if eq_ignore_case(arg, &h_long) || bytes_eq(arg, &h_short) {
                r.show_help = true;
                proof {
                    assert(flag_of(rest[0]) == Some((OptionAction::ShowHelp, false)));
                    assert(r@ == apply_action(st, OptionAction::ShowHelp, None));
                }
                i = i + 1;
            } else if eq_ignore_case(arg, &e_long) || bytes_eq(arg, &e_short) {
                r.show_only_errors = true;
                proof {
                    assert(flag_of(rest[0]) == Some((OptionAction::OnlyErrors, false)));
                }
                i = i + 1;
            } else if eq_ignore_case(arg, &cfg) {
                proof {
                    assert(flag_of(rest[0]) == Some((OptionAction::SetConfigPath, true)));
                }
                if i + 1 < n {
                    r.config_path = Some(crate::bytes::clone_bytes(&args[i + 1]));
                    proof {
                        assert(rest[1] == av0[i + 1]);
                        assert(rest.skip(2) =~= av0.skip(i + 2));
                    }
                    i = i + 2;
                } else {
                    r.config_path = None;
                    proof {
                        assert(rest.skip(1) =~= av0.skip(i + 1));
                    }
                    i = i + 1;
                }
            } else if eq_ignore_case(arg, &eject) {
                r.eject_config = true;
                proof {
                    assert(flag_of(rest[0]) == Some((OptionAction::EjectConfig, false)));
                }
                i = i + 1;
            } else if eq_ignore_case(arg, &dump) {
                r.dump_rules = true;
                proof {
                    assert(flag_of(rest[0]) == Some((OptionAction::DumpRules, false)));
                }
                i = i + 1;
            } else if eq_ignore_case(arg, &act) {
                proof {
                    assert(flag_of(rest[0]) == Some((OptionAction::SetActiveRule, true)));
                }
                if i + 1 < n {
                    r.active_rule = crate::bytes::clone_bytes(&args[i + 1]);
                    proof {
                        assert(rest[1] == av0[i + 1]);
                        assert(rest.skip(2) =~= av0.skip(i + 2));
                    }
                    i = i + 2;
                } else {
                    proof {
                        assert(rest.skip(1) =~= av0.skip(i + 1));
                    }
                    i = i + 1;
                }
            } else {
                let ghost before = r@.build_args;
                proof {
                    assert(flag_of(rest[0]) is None);
                }
                let a = crate::bytes::clone_bytes(arg);
                r.build_args.push(a);
                proof {
                    assert(r@.build_args =~= before.push(av0[i as int]));
                }
                i = i + 1;
            }
        }
        proof {
            assert(av0.skip(n as int).len() == 0);
        }
        r
    }
}

/// A two-byte vector, used for the short flags and the `--` terminator.
fn two_bytes(a: u8, b: u8) -> (r: Vec<u8>)
    ensures
        r@ == seq![a, b],
{
    let mut r: Vec<u8> = Vec::new();
    r.push(a);
    r.push(b);
    proof {
        assert(r@ =~= seq![a, b]);
    }
    r
}

/// Exact byte-string equality.
pub fn bytes_eq(a: &Vec<u8>, b: &Vec<u8>) -> (r: bool)
    ensures
        r == (a@ == b@),
{
    if a.len() != b.len() {
        assert(a@.len() != b@.len());
        return false;
    }
    let mut i: usize = 0;
    while i < a.len()
        invariant
            0 <= i <= a@.len() == b@.len(),
            forall|j: int| 0 <= j < i ==> a@[j] == b@[j],
        decreases a@.len() - i,
    {
        if a[i] != b[i] {
            return false;
        }
        i = i + 1;
    }
    assert(a@ =~= b@);
    true
}

/// One row of the option table says what it should: the given flags,
/// description, value requirement and action.
pub open spec fn option_row_ok(
    o: KnownOptionModel,
    name: Seq<u8>,
    long: Seq<u8>,
    short: Option<u8>,
    desc: Seq<u8>,
    needs_value: bool,
    activate: OptionAction,
) -> bool {
    &&& o.name == name
    &&& o.long == Some(long)
    &&& o.short == short
    &&& o.desc == Some(desc)
    &&& o.needs_value == needs_value
    &&& o.activate == Some(activate)
}

/// The table of flags the help screen lists: the six options of the
/// command-line surface, with their short and long forms, descriptions,
/// value requirements and actions.
pub fn known_options() -> (r: Vec<KnownOption>)
    ensures
        r@.len() == 6,
        option_row_ok(
            r@[0]@,
            ("help").spec_bytes(),
            ("--help").spec_bytes(),
            Some(104u8),
            ("Show this help screen").spec_bytes(),
            false,
            OptionAction::ShowHelp,
        ),
        option_row_ok(
            r@[1]@,
            ("only-errors").spec_bytes(),
            ("--only-errors").spec_bytes(),
            Some(69u8),
            ("Filter logs: show only errors").spec_bytes(),
            false,
            OptionAction::OnlyErrors,
        ),
        option_row_ok(
            r@[2]@,
            ("config").spec_bytes(),
            ("--config").spec_bytes(),
            None,
            ("Use this config file path").spec_bytes(),
            true,
            OptionAction::SetConfigPath,
        ),
        option_row_ok(
            r@[3]@,
            ("eject-config").spec_bytes(),
            ("--eject-config").spec_bytes(),
            None,
            ("Write the config out and continue").spec_bytes(),
            false,
            OptionAction::EjectConfig,
        ),
        option_row_ok(
            r@[4]@,
            ("dump-rules").spec_bytes(),
            ("--dump-rules").spec_bytes(),
            None,
            ("Print the loaded rules and exit").spec_bytes(),
            false,
            OptionAction::DumpRules,
        ),
        option_row_ok(
            r@[5]@,
            ("active-rule").spec_bytes(),
            ("--active-rule").spec_bytes(),
            None,
            ("Set the active rule by alias").spec_bytes(),
            true,
            OptionAction::SetActiveRule,
        ),
{
    let mut r: Vec<KnownOption> = Vec::new();
    r.push(
        KnownOption::new(byte_lit("help")).with_long(byte_lit("--help")).with_short(104).with_desc(
            byte_lit("Show this help screen"),
        ).with_activate(OptionAction::ShowHelp),
    );
    r.push(
        KnownOption::new(byte_lit("only-errors")).with_long(byte_lit("--only-errors")).with_short(
            69,
        ).with_desc(byte_lit("Filter logs: show only errors")).with_activate(
            OptionAction::OnlyErrors,
        ),
    );
    r.push(
        KnownOption::new(byte_lit("config")).with_long(byte_lit("--config")).with_desc(
            byte_lit("Use this config file path"),
        ).with_value_required(true).with_activate(OptionAction::SetConfigPath),
    );
    r.push(
        KnownOption::new(byte_lit("eject-config")).with_long(byte_lit("--eject-config")).with_desc(
            byte_lit("Write the config out and continue"),
        ).with_activate(OptionAction::EjectConfig),
    );
    r.push(
        KnownOption::new(byte_lit("dump-rules")).with_long(byte_lit("--dump-rules")).with_desc(
            byte_lit("Print the loaded rules and exit"),
        ).with_activate(OptionAction::DumpRules),
    );
    r.push(
        KnownOption::new(byte_lit("active-rule")).with_long(byte_lit("--active-rule")).with_desc(
            byte_lit("Set the active rule by alias"),
        ).with_value_required(true).with_activate(OptionAction::SetActiveRule),
    );
    r
}

/// The flag column of one usage row.
pub open spec fn flag_text(o: KnownOptionModel) -> Seq<u8> {
    (match o.short {
        Some(ch) => seq![45u8, ch],
        None => Seq::<u8>::empty(),
    }) + (match o.long {
        Some(l) => (match o.short {
            Some(_) => seq![44u8, 32u8],
            None => Seq::<u8>::empty(),
        }) + l,
        None => Seq::<u8>::empty(),
    }) + (if o.needs_value {
        (" <VALUE>").spec_bytes()
    } else {
        Seq::<u8>::empty()
    })
}

/// The widest flag column among the first `hi` options.
pub open spec fn flag_width(os: Seq<KnownOptionModel>, hi: int) -> int
    decreases hi,
{
    if hi <= 0 {
        0
    } else {
        let rest = flag_width(os, hi - 1);
        let this = flag_text(os[hi - 1]).len() as int;
        if this > rest {
            this
        } else {
            rest
        }
    }
}

/// One usage row: two spaces, the flag column padded to `width`, a colon
/// separator, and the description.
pub open spec fn usage_row(o: KnownOptionModel, width: int) -> Seq<u8> {
    let flags = flag_text(o);
    seq![32u8, 32u8] + flags + Seq::new((width - flags.len()) as nat, |i: int| 32u8) + seq![
        58u8,
        32u8,
    ] + (match o.desc {
        Some(d) => d,
        None => Seq::<u8>::empty(),
    })
}

/// The usage rows for the option table, one aligned row per option.
pub fn usage_lines(opts: &Vec<KnownOption>) -> (r: Vec<Vec<u8>>)
    ensures
        r@.len() == opts@.len(),
        forall|i: int|
            0 <= i < r@.len() ==> (#[trigger] r@[i])@ == usage_row(
                opts@.map_values(|o: KnownOption| o@)[i],
                flag_width(opts@.map_values(|o: KnownOption| o@), opts@.len() as int),
            ),
{
    let ghost ov = opts@.map_values(|o: KnownOption| o@);
    let n = opts.len();
    // first pass: the widest flag column
    let mut width: usize = 0;
    let mut i: usize = 0;
    while i < n
        invariant
            0 <= i <= n == opts@.len(),
            ov == opts@.map_values(|o: KnownOption| o@),
            width as int == flag_width(ov, i as int),
        decreases n - i,
    {
        let f = flag_column(&opts[i]);
        proof {
            assert(ov[i as int] == opts@[i as int]@);
        }
        if f.len() > width {
            width = f.len();
        }
        i = i + 1;
    }
    // second pass: the rows
    let mut r: Vec<Vec<u8>> = Vec::new();
    let mut i: usize = 0;
    while i < n
        invariant
            0 <= i <= n == opts@.len(),
            ov == opts@.map_values(|o: KnownOption| o@),
            width as int == flag_width(ov, n as int),
            r@.len() == i,
            forall|j: int|
                0 <= j < i ==> (#[trigger] r@[j])@ == usage_row(ov[j], width as int),
        decreases n - i,
    {
        let flags = flag_column(&opts[i]);
        proof {
            assert(ov[i as int] == opts@[i as int]@);
            lemma_flag_width_bounds(ov, i as int, n as int);
        }
        let mut row: Vec<u8> = Vec::new();
        row.push(32);
        row.push(32);
        let mut ftext = flags;
        let flen = ftext.len();
        row.append(&mut ftext);
        let mut pad = spaces(width - flen);
        row.append(&mut pad);
        row.push(58);
        row.push(32);
        match &opts[i].desc {
            Some(d) => {
                let mut dtext = crate::bytes::clone_bytes(d);
                row.append(&mut dtext);
            },
            None => {},
        }
        proof {
            assert(row@ =~= usage_row(ov[i as int], width as int));
        }
        r.push(row);
        i = i + 1;
    }
    r
}

/// Every option's flag column is no wider than the table's width.
proof fn lemma_flag_width_bounds(os: Seq<KnownOptionModel>, i: int, hi: int)
    requires
        0 <= i < hi,
    ensures
        flag_text(os[i]).len() <= flag_width(os, hi),
        flag_width(os, i) <= flag_width(os, hi),
        flag_width(os, hi) >= 0,
    decreases hi,
{
    if i < hi - 1 {
        lemma_flag_width_bounds(os, i, hi - 1);
    }
    if hi - 1 > 0 && i < hi - 1 {
    } else {
    }
}

/// The flag column of one option.
fn flag_column(o: &KnownOption) -> (r: Vec<u8>)
    ensures
        r@ == flag_text(o@),
{
    let mut r: Vec<u8> = Vec::new();
    match &o.short {
        Some(ch) => {
            r.push(45);
            r.push(*ch);
        },
        None => {},
    }
    match &o.long {
        Some(l) => {
            match &o.short {
                Some(_) => {
                    r.push(44);
                    r.push(32);
                },
                None => {},
            }
            let mut ltext = crate::bytes::clone_bytes(l);
            r.append(&mut ltext);
        },
        None => {},
    }
    if o.needs_value {
        let mut v = byte_lit(" <VALUE>");
        r.append(&mut v);
    }
    proof {
        assert(r@ =~= flag_text(o@));
    }
    r
}

} // verus!
