//! The command line: which directory to organize, and how.

use vstd::prelude::*;

use crate::text::{chars_of, same_chars, starts_with};

verus! {

/// Which timestamp of a file decides where it goes.
#[derive(Clone, Copy, Debug, PartialEq, Eq, Structural)]
pub enum SortType {
    Created,
    Modified,
}

/// How finely files are grouped: `year/month` or `year/month/day`.
#[derive(Clone, Copy, Debug, PartialEq, Eq, Structural)]
pub enum Mode {
    Month,
    Day,
}

/// Why a command line was rejected.
#[derive(Clone, Copy, Debug, PartialEq, Eq, Structural)]
pub enum ConfigError {
    /// No directory follows the program name.
    MissingDirectory,
    /// A token is none of `-r`, `mode=..`, `sort=..`.
    UnknownArgument,
    /// `mode=` is followed by neither `day` nor `month`.
    InvalidMode,
    /// `sort=` is followed by neither `created` nor `modified`.
    InvalidSortType,
}

/// One run's settings. Built once from the command line and not changed afterwards.
#[derive(Debug, PartialEq, Eq)]
pub struct Config {
    pub directory_path: String,
    pub recursive: bool,
    pub mode: Mode,
    pub sort_type: SortType,
}

/// A `Config` as plain values.
pub struct ConfigView {
    pub directory_path: Seq<char>,
    pub recursive: bool,
    pub mode: Mode,
    pub sort_type: SortType,
}

impl View for Config {
    type V = ConfigView;

    open spec fn view(&self) -> ConfigView {
        ConfigView {
            directory_path: self.directory_path@,
            recursive: self.recursive,
            mode: self.mode,
            sort_type: self.sort_type,
        }
    }
}

/// The settings of a command line that names `directory_path` and carries no flags.
pub open spec fn defaults(directory_path: Seq<char>) -> ConfigView {
    ConfigView { directory_path, recursive: false, mode: Mode::Month, sort_type: SortType::Created }
}

/// The grouping that the value of a `mode=` flag selects.
pub open spec fn mode_named(value: Seq<char>) -> Option<Mode> {
    if value == "day"@ {
        Some(Mode::Day)
    } else if value == "month"@ {
        Some(Mode::Month)
    } else {
        None
    }
}

/// The timestamp source that the value of a `sort=` flag selects.
pub open spec fn sort_type_named(value: Seq<char>) -> Option<SortType> {
    if value == "created"@ {
        Some(SortType::Created)
    } else if value == "modified"@ {
        Some(SortType::Modified)
    } else {
        None
    }
}

/// `settings` after one flag, or the reason the flag is rejected.
pub open spec fn apply_flag(settings: ConfigView, flag: Seq<char>) -> Result<
    ConfigView,
    ConfigError,
> {
    if flag == "-r"@ {
        Ok(ConfigView { recursive: true, ..settings })
    } else if "mode="@.is_prefix_of(flag) {
        match mode_named(flag.skip("mode="@.len() as int)) {
            Some(mode) => Ok(ConfigView { mode, ..settings }),
            None => Err(ConfigError::InvalidMode),
        }
    } else if "sort="@.is_prefix_of(flag) {
        match sort_type_named(flag.skip("sort="@.len() as int)) {
            Some(sort_type) => Ok(ConfigView { sort_type, ..settings }),
            None => Err(ConfigError::InvalidSortType),
        }
    } else {
        Err(ConfigError::UnknownArgument)
    }
}

/// `settings` after the flags from left to right: a later flag overrides an
/// earlier one of its kind, and the first rejected flag ends the parse.
pub open spec fn apply_flags(settings: ConfigView, flags: Seq<Seq<char>>) -> Result<
    ConfigView,
    ConfigError,
>
    decreases flags.len(),
{
    if flags.len() == 0 {
        Ok(settings)
    } else {
        match apply_flag(settings, flags[0]) {
            Ok(next) => apply_flags(next, flags.skip(1)),
            Err(e) => Err(e),
        }
    }
}

/// What a whole command line means. The first token is the program's name and
/// is not looked at, the second is the directory, the rest are flags.
pub open spec fn parsed(tokens: Seq<Seq<char>>) -> Result<ConfigView, ConfigError> {
    if tokens.len() < 2 {
        Err(ConfigError::MissingDirectory)
    } else {
        apply_flags(defaults(tokens[1]), tokens.skip(2))
    }
}

/// Whether two flags speak of the same setting.
pub open spec fn same_setting(one: Seq<char>, other: Seq<char>) -> bool {
    ||| one == "-r"@ && other == "-r"@
    ||| "mode="@.is_prefix_of(one) && "mode="@.is_prefix_of(other)
    ||| "sort="@.is_prefix_of(one) && "sort="@.is_prefix_of(other)
}

/// Flags can be applied in two runs: a front part, and from what it gives
/// the rest.
pub proof fn lemma_flags_in_turn(settings: ConfigView, front: Seq<Seq<char>>, back: Seq<Seq<char>>)
    ensures
        apply_flags(settings, front + back) == match apply_flags(settings, front) {
            Ok(next) => apply_flags(next, back),
            Err(e) => Err(e),
        },
    decreases front.len(),
{
    if front.len() > 0 {
        assert((front + back).skip(1) =~= front.skip(1) + back);
        if apply_flag(settings, front[0]) is Ok {
            lemma_flags_in_turn(apply_flag(settings, front[0])->Ok_0, front.skip(1), back);
        }
    }
}

/// The order of accepted flags does not matter, and of repeated flags the
/// last one wins: where two accepted flags stand side by side anywhere among
/// the flags, they can change places if they speak of different settings,
/// and the first can be left out if they speak of the same.
pub proof fn lemma_flag_order(
    settings: ConfigView,
    front: Seq<Seq<char>>,
    one: Seq<char>,
    other: Seq<char>,
    back: Seq<Seq<char>>,
)
    requires
        apply_flag(settings, one) is Ok,
        apply_flag(settings, other) is Ok,
    ensures
        !same_setting(one, other) ==> apply_flags(settings, front + seq![one, other] + back)
            == apply_flags(settings, front + seq![other, one] + back),
        same_setting(one, other) ==> apply_flags(settings, front + seq![one, other] + back)
            == apply_flags(settings, front + seq![other] + back),
{
    reveal_strlit("-r");
    reveal_strlit("mode=");
    reveal_strlit("sort=");
    lemma_flags_in_turn(settings, front, seq![one, other] + back);
    lemma_flags_in_turn(settings, front, seq![other, one] + back);
    lemma_flags_in_turn(settings, front, seq![other] + back);
    assert(front + seq![one, other] + back =~= front + (seq![one, other] + back));
    assert(front + seq![other, one] + back =~= front + (seq![other, one] + back));
    assert(front + seq![other] + back =~= front + (seq![other] + back));
    if apply_flags(settings, front) is Ok {
        let middle = apply_flags(settings, front)->Ok_0;
        lemma_flags_in_turn(middle, seq![one, other], back);
        lemma_flags_in_turn(middle, seq![other, one], back);
        lemma_flags_in_turn(middle, seq![other], back);
        reveal_with_fuel(apply_flags, 3);
    }
}

impl ConfigError {
    /// The text shown to the user for this error.
    pub open spec fn message_text(self) -> Seq<char> {
        match self {
            ConfigError::MissingDirectory => "Directory not specified"@,
            ConfigError::UnknownArgument => "Unknown argument"@,
            ConfigError::InvalidMode => "Invalid mode"@,
            ConfigError::InvalidSortType => "Invalid sort type"@,
        }
    }

    /// The text shown to the user for this error.
    pub fn message(&self) -> (text: &'static str)
        ensures
            text@ == self.message_text(),
    {
        match self {
            ConfigError::MissingDirectory => "Directory not specified",
            ConfigError::UnknownArgument => "Unknown argument",
            ConfigError::InvalidMode => "Invalid mode",
            ConfigError::InvalidSortType => "Invalid sort type",
        }
    }
}

/// The value of a `mode=` flag, read.
fn read_mode(value: &[char]) -> (mode: Option<Mode>)
    ensures
        mode == mode_named(value@),
{
    if same_chars(value, chars_of("day").as_slice()) {
        Some(Mode::Day)
    } else if same_chars(value, chars_of("month").as_slice()) {
        Some(Mode::Month)
    } else {
        None
    }
}

/// The value of a `sort=` flag, read.
fn read_sort_type(value: &[char]) -> (sort_type: Option<SortType>)
    ensures
        sort_type == sort_type_named(value@),
{
    if same_chars(value, chars_of("created").as_slice()) {
        Some(SortType::Created)
    } else if same_chars(value, chars_of("modified").as_slice()) {
        Some(SortType::Modified)
    } else {
        None
    }
}

/// The part of `flag` behind its first `key_len` characters.
fn value_of(flag: &Vec<char>, key_len: usize) -> (value: Vec<char>)
    requires
        key_len <= flag@.len(),
    ensures
        value@ == flag@.skip(key_len as int),
{
    let mut value: Vec<char> = Vec::new();
    let mut i: usize = key_len;
    while i < flag.len()
        invariant
            key_len <= i <= flag@.len(),
            value@ == flag@.subrange(key_len as int, i as int),
        decreases flag@.len() - i,
    {
        value.push(flag[i]);
        i += 1;
    }
    value
}

impl Config {
    /// Applies one flag to the settings read so far.
    fn set(&mut self, flag: &str) -> (outcome: Result<(), ConfigError>)
        ensures
            match apply_flag(old(self)@, flag@) {
                Ok(next) => outcome is Ok && final(self)@ == next,
                Err(e) => outcome == Err::<(), ConfigError>(e) && final(self)@ == old(self)@,
            },
    {
        let flag = chars_of(flag);
        let mode_key = chars_of("mode=");
        let sort_key = chars_of("sort=");
        if same_chars(flag.as_slice(), chars_of("-r").as_slice()) {
            self.recursive = true;
            Ok(())
        } else if starts_with(flag.as_slice(), mode_key.as_slice()) {
            match read_mode(value_of(&flag, mode_key.len()).as_slice()) {
                Some(mode) => {
                    self.mode = mode;
                    Ok(())
                },
                None => Err(ConfigError::InvalidMode),
            }
        } else if starts_with(flag.as_slice(), sort_key.as_slice()) {
            match read_sort_type(value_of(&flag, sort_key.len()).as_slice()) {
                Some(sort_type) => {
                    self.sort_type = sort_type;
                    Ok(())
                },
                None => Err(ConfigError::InvalidSortType),
            }
        } else {
            Err(ConfigError::UnknownArgument)
        }
    }

    /// Reads a command line, program name first.
    ///
    /// Succeeds exactly when a directory is named and every flag behind it is
    /// one of `-r`, `mode=day`, `mode=month`, `sort=created`, `sort=modified`;
    /// otherwise the error is that of the first token at fault.
    pub fn parse(args: &Vec<String>) -> (outcome: Result<Config, ConfigError>)
        ensures
            match parsed(args.deep_view()) {
                Ok(settings) => outcome matches Ok(config) && config@ == settings,
                Err(e) => outcome matches Err(reason) && reason == e,
            },
            args@.len() < 2 <==> outcome matches Err(ConfigError::MissingDirectory),
    {
        if args.len() < 2 {
            return Err(ConfigError::MissingDirectory);
        }
        let mut config = Config {
            directory_path: args[1].clone(),
            recursive: false,
            mode: Mode::Month,
            sort_type: SortType::Created,
        };
        let ghost tokens = args.deep_view();
        let mut i: usize = 2;
        while i < args.len()
            invariant
                2 <= i <= args@.len(),
                tokens == args.deep_view(),
                parsed(tokens) == apply_flags(config@, tokens.skip(i as int)),
            decreases args@.len() - i,
        {
            assert(tokens.skip(i as int).skip(1) == tokens.skip(i + 1));
            match config.set(args[i].as_str()) {
                Ok(()) => {},
                Err(e) => {
                    return Err(e);
                },
            }
            i += 1;
        }
        Ok(config)
    }

    /// Reads a command line, program name first, and words the error for the user.
    pub fn build(args: Vec<String>) -> (outcome: Result<Config, &'static str>)
        ensures
            match parsed(args.deep_view()) {
                Ok(settings) => outcome matches Ok(config) && config@ == settings,
                Err(e) => outcome matches Err(text) && text@ == e.message_text(),
            },
            args@.len() < 2 ==> (outcome matches Err(text) && text@ == "Directory not specified"@),
    {
        match Config::parse(&args) {
            Ok(config) => Ok(config),
            Err(e) => Err(e.message()),
        }
    }
}

} // verus!
