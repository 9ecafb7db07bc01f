//! The command line: its help text, `--name value` options, and which
//! command a list of arguments asks for.

use vstd::prelude::*;
use crate::profile_core::{identity_outcome, ProfileIdentity};
use crate::text::{chars_eq, chars_of, concat_chars, owned, starts_with, starts_with_exec, string_from_chars, trim, trim_exec};

verus! {

/// The CLI's usage text.
pub const HELP: &'static str = "CCM Reborn CLI

USAGE:
  ccm plan --game-dir PATH --archive PATH --campaign-id ID --title TITLE --sha256 HEX [--profile-dir PATH] [--output PATH]
  ccm install --game-dir PATH --archive PATH --campaign-id ID --title TITLE --sha256 HEX --confirm APPLY --profile-dir PATH [--author NAME] [--version V] [--output PATH]
  ccm restore --game-dir PATH --target PATH --confirm RESTORE --profile-dir PATH [--output PATH]
  ccm installed --game-dir PATH --target PATH [--output PATH]
  ccm summary --root PATH [--output PATH]
  ccm inspect --root PATH [--output PATH]
  ccm profile-key --family ID --major N --campaign-id ID
  ccm sort-summary --input FILE [--output PATH]
  ccm roundtrip-check --root PATH --manifest FILE [--output PATH]
  ccm local-inspect --archive PATH [--output PATH]
  ccm local-add --archive PATH [--store-dir PATH] [--title T] [--author A] [--version V] [--output PATH]
  ccm local-list [--store-dir PATH] [--output PATH]
  ccm local-remove --id ID [--store-dir PATH] [--output PATH]
  ccm --help

COMMANDS:
  plan     Run the read-only campaign install planner and emit its full JSON plan.
  install  Apply a package after an explicit `--confirm APPLY` acknowledgement.
  restore  Restore one explicit campaign branch and its saved vanilla profile.
  installed  Show the exact package file inventory recorded for a campaign branch.
  summary  Inventory an explicit directory (paths, kinds, sizes, SHA-256).
  inspect  Alias for summary, useful in scripts and diagnostics.
  profile-key  Validate and print a stable family/major profile identity.
  sort-summary Sort progress summaries by branch-local progress recency rules.
  roundtrip-check Compare an explicit root against manifest file hashes.

NOTES:
  The game directory is always explicit; the CLI never searches for one.
  `plan` and `installed` are read-only. `install` and `restore` mutate only
  the supplied game directory and the selected StarCraft II profile, and
  require StarCraft II closed.
";

// ----------------------------------------------------------------------
// Outside helpers
// ----------------------------------------------------------------------

/// What `format!("{:?}", s)` writes for a string: the text quoted and escaped.
pub uninterp spec fn debug_text(s: Seq<char>) -> Seq<char>;

/// `format!("{:?}", s)` of a string slice.
#[verifier::external_body]
pub(crate) fn debug_quoted(s: &str) -> (r: String)
    ensures
        r@ == debug_text(s@),
{
    format!("{:?}", s)
}

pub open spec fn is_ascii_digit_char(c: char) -> bool {
    '0' <= c && c <= '9'
}

/// The value of a string of decimal digits.
pub open spec fn digits_value(d: Seq<char>) -> int
    decreases d.len(),
{
    if d.len() == 0 {
        0
    } else {
        digits_value(d.drop_last()) * 10 + (d.last() as int - '0' as int)
    }
}

/// `u32::from_str`: an optional `+` and then one or more decimal digits
/// whose value fits in a `u32`.
pub open spec fn unsigned_digits(s: Seq<char>) -> Seq<char> {
    if s.len() > 0 && s[0] == '+' { s.skip(1) } else { s }
}

pub open spec fn u32_text(s: Seq<char>) -> Option<u32> {
    let d = unsigned_digits(s);
    if d.len() > 0 && (forall|i: int| 0 <= i < d.len() ==> is_ascii_digit_char(#[trigger] d[i])) && digits_value(d)
        <= u32::MAX {
        Some(digits_value(d) as u32)
    } else {
        None
    }
}

proof fn lemma_digits_prefix(d: Seq<char>, k: int)
    requires
        0 <= k <= d.len(),
        forall|i: int| 0 <= i < d.len() ==> is_ascii_digit_char(#[trigger] d[i]),
    ensures
        0 <= digits_value(d.take(k)) <= digits_value(d),
    decreases d.len(),
{
    if k == d.len() {
        assert(d.take(k) =~= d);
        if d.len() > 0 {
            lemma_digits_prefix(d.drop_last(), k - 1);
            assert(d.drop_last().take(k - 1) =~= d.drop_last());
        }
    } else {
        lemma_digits_prefix(d.drop_last(), k);
        assert(d.drop_last().take(k) =~= d.take(k));
        lemma_digits_prefix(d.drop_last(), d.len() - 1);
        assert(d.drop_last().take(d.len() - 1) =~= d.drop_last());
    }
}

/// `str::parse::<u32>`: an optional `+`, then decimal digits, refused on
/// overflow.
fn parse_u32(s: &str) -> (r: Option<u32>)
    ensures
        r == u32_text(s@),
{
    let v = chars_of(s);
    let start: usize = if v.len() > 0 && v[0] == '+' { 1 } else { 0 };
    let ghost d = unsigned_digits(s@);
    proof {
        assert(d =~= v@.skip(start as int));
    }
    if start >= v.len() {
        return None;
    }
    let mut value: u64 = 0;
    let mut i = start;
    proof {
        assert(d.take(0) =~= Seq::<char>::empty());
    }
    while i < v.len()
        invariant
            start <= i <= v.len(),
            start < v.len(),
            v@ == s@,
            d == unsigned_digits(s@),
            d == v@.skip(start as int),
            value == digits_value(d.take(i - start)),
            value <= u32::MAX,
            forall|k: int| 0 <= k < i - start ==> is_ascii_digit_char(#[trigger] d[k]),
        decreases v.len() - i,
    {
        let c = v[i];
        if !('0' <= c && c <= '9') {
            proof {
                assert(d[i - start] == c);
                assert(!is_ascii_digit_char(d[i - start]));
                assert(!(forall|k: int| 0 <= k < d.len() ==> is_ascii_digit_char(#[trigger] d[k])));
            }
            return None;
        }
        let digit = (c as u32 - '0' as u32) as u64;
        proof {
            assert(d.take(i - start + 1).drop_last() =~= d.take(i - start));
            assert(d.take(i - start + 1).last() == c);
        }
        value = value * 10 + digit;
        proof {
            assert(d[i - start] == c);
            assert(value == digits_value(d.take(i - start + 1)));
        }
        if value > 4294967295 {
            proof {
                if forall|k: int| 0 <= k < d.len() ==> is_ascii_digit_char(#[trigger] d[k]) {
                    lemma_digits_prefix(d, i - start + 1);
                }
            }
            return None;
        }
        i = i + 1;
    }
    proof {
        assert(d.take(d.len() as int) =~= d);
    }
    Some(value as u32)
}

// ----------------------------------------------------------------------
// Options
// ----------------------------------------------------------------------

/// The `--name value` options of a command line, in the order given; no
/// name occurs twice.
#[derive(Debug, Clone, PartialEq, Eq)]
pub struct CliOptions {
    pub entries: Vec<(String, String)>,
}

pub open spec fn entry_views(v: Seq<(String, String)>) -> Seq<(Seq<char>, Seq<char>)> {
    v.map_values(|e: (String, String)| (e.0@, e.1@))
}

impl CliOptions {
    pub open spec fn view(&self) -> Seq<(Seq<char>, Seq<char>)> {
        entry_views(self.entries@)
    }
}

pub open spec fn has_option(entries: Seq<(Seq<char>, Seq<char>)>, name: Seq<char>) -> bool {
    exists|i: int| 0 <= i < entries.len() && #[trigger] entries[i].0 == name
}

/// The value of option `name`, if it was given.
pub open spec fn option_value(entries: Seq<(Seq<char>, Seq<char>)>, name: Seq<char>) -> Option<Seq<char>>
    decreases entries.len(),
{
    if entries.len() == 0 {
        None
    } else if entries[0].0 == name {
        Some(entries[0].1)
    } else {
        option_value(entries.drop_first(), name)
    }
}

/// `parse_options` from argument `i` on, with `acc` the options read so far.
pub open spec fn options_from(args: Seq<Seq<char>>, i: int, acc: Seq<(Seq<char>, Seq<char>)>) -> Result<
    Seq<(Seq<char>, Seq<char>)>,
    Seq<char>,
>
    decreases args.len() - i,
{
    if i < 0 || i >= args.len() {
        Ok(acc)
    } else if !starts_with(args[i], "--"@) {
        Err("unexpected argument "@ + debug_text(args[i]) + "; options use --name value"@)
    } else if args[i].len() == 2 {
        Err("empty option name"@)
    } else if i + 1 >= args.len() || starts_with(args[i + 1], "-"@) {
        Err("missing value for --"@ + args[i].skip(2))
    } else if has_option(acc, args[i].skip(2)) {
        Err("option --"@ + args[i].skip(2) + " was provided more than once"@)
    } else {
        options_from(args, i + 2, acc.push((args[i].skip(2), args[i + 1])))
    }
}

pub open spec fn options_outcome(args: Seq<Seq<char>>) -> Result<Seq<(Seq<char>, Seq<char>)>, Seq<char>> {
    options_from(args, 0, Seq::empty())
}

fn option_index(entries: &Vec<(String, String)>, name: &[char]) -> (r: Option<usize>)
    ensures
        match r {
            Some(i) => i < entries@.len() && option_value(entry_views(entries@), name@) == Some(entries@[i as int].1@)
                && has_option(entry_views(entries@), name@),
            None => option_value(entry_views(entries@), name@) is None && !has_option(entry_views(entries@), name@),
        },
{
    let ghost ev = entry_views(entries@);
    let mut i: usize = 0;
    proof {
        assert(ev.skip(0) =~= ev);
    }
    while i < entries.len()
        invariant
            i <= entries.len(),
            ev == entry_views(entries@),
            option_value(ev, name@) == option_value(ev.skip(i as int), name@),
            forall|j: int| 0 <= j < i ==> #[trigger] ev[j].0 != name@,
        decreases entries.len() - i,
    {
        if chars_eq(&chars_of(entries[i].0.as_str()), name) {
            proof {
                assert(ev.skip(i as int)[0] == ev[i as int]);
                assert(ev[i as int].0 == name@);
            }
            return Some(i);
        }
        proof {
            assert(ev.skip(i as int).drop_first() =~= ev.skip(i as int + 1));
        }
        i = i + 1;
    }
    proof {
        assert(ev.skip(i as int) =~= Seq::<(Seq<char>, Seq<char>)>::empty());
    }
    None
}

impl CliOptions {
    /// The value of option `name`, if it was given.
    pub fn get(&self, name: &str) -> (r: Option<String>)
        ensures
            match r {
                Some(v) => option_value(self.view(), name@) == Some(v@),
                None => option_value(self.view(), name@) is None,
            },
    {
        match option_index(&self.entries, &chars_of(name)) {
            Some(i) => Some(owned(self.entries[i].1.as_str())),
            None => None,
        }
    }
}

/// `parse_options`: `--name value` pairs; a value may not start with `-`,
/// and no name may be given twice.
pub fn parse_options(arguments: &[String]) -> (r: Result<CliOptions, String>)
    ensures
        match r {
            Ok(o) => options_outcome(arguments@.map_values(|a: String| a@)) == Ok::<
                Seq<(Seq<char>, Seq<char>)>,
                Seq<char>,
            >(o.view()),
            Err(e) => options_outcome(arguments@.map_values(|a: String| a@)) == Err::<
                Seq<(Seq<char>, Seq<char>)>,
                Seq<char>,
            >(e@),
        },
{
    let ghost args = arguments@.map_values(|a: String| a@);
    let mut entries: Vec<(String, String)> = Vec::new();
    let mut index: usize = 0;
    proof {
        assert(entry_views(entries@) =~= Seq::<(Seq<char>, Seq<char>)>::empty());
    }
    while index < arguments.len()
        invariant
            args == arguments@.map_values(|a: String| a@),
            index <= arguments.len(),
            options_outcome(args) == options_from(args, index as int, entry_views(entries@)),
        decreases arguments.len() - index,
    {
        let argument = chars_of(arguments[index].as_str());
        proof {
            assert(args[index as int] == argument@);
        }
        if !starts_with_exec(&argument, &chars_of("--")) {
            let m = concat_chars(&chars_of("unexpected argument "), &chars_of(debug_quoted(arguments[index].as_str()).as_str()));
            return Err(string_from_chars(&concat_chars(&m, &chars_of("; options use --name value"))));
        }
        proof {
            reveal_strlit("--");
        }
        if argument.len() == 2 {
            return Err(owned("empty option name"));
        }
        let name = crate::text::slice_chars(&argument, 2, argument.len());
        proof {
            assert(name@ =~= args[index as int].skip(2));
        }
        if index + 1 >= arguments.len() || starts_with_exec(&chars_of(arguments[index + 1].as_str()), &chars_of("-")) {
            return Err(string_from_chars(&concat_chars(&chars_of("missing value for --"), &name)));
        }
        if option_index(&entries, &name).is_some() {
            let m = concat_chars(&chars_of("option --"), &name);
            return Err(string_from_chars(&concat_chars(&m, &chars_of(" was provided more than once"))));
        }
        let value = owned(arguments[index + 1].as_str());
        let ghost before = entries@;
        entries.push((string_from_chars(&name), value));
        proof {
            assert(args[index as int + 1] == arguments@[index as int + 1]@);
            assert(entry_views(entries@) =~= entry_views(before).push((args[index as int].skip(2), args[index as int + 1])));
        }
        index = index + 2;
    }
    Ok(CliOptions { entries })
}

pub open spec fn missing_required(name: Seq<char>) -> Seq<char> {
    "missing required --"@ + name + "; run `ccm --help`"@
}

/// `required`: a given option whose value is not blank.
pub open spec fn required_outcome(entries: Seq<(Seq<char>, Seq<char>)>, name: Seq<char>) -> Result<Seq<char>, Seq<char>> {
    match option_value(entries, name) {
        Some(v) => if trim(v).len() > 0 {
            Ok(v)
        } else {
            Err(missing_required(name))
        },
        None => Err(missing_required(name)),
    }
}

/// The value of a required `--name` option, or the error naming it.
pub fn required(options: &CliOptions, name: &str) -> (r: Result<String, String>)
    ensures
        match r {
            Ok(v) => required_outcome(options.view(), name@) == Ok::<Seq<char>, Seq<char>>(v@),
            Err(e) => required_outcome(options.view(), name@) == Err::<Seq<char>, Seq<char>>(e@),
        },
{
    match options.get(name) {
        Some(v) => {
            if trim_exec(&chars_of(v.as_str())).len() > 0 {
                return Ok(v);
            }
        },
        None => {},
    }
    let m = concat_chars(&chars_of("missing required --"), &chars_of(name));
    Err(string_from_chars(&concat_chars(&m, &chars_of("; run `ccm --help`"))))
}


// ----------------------------------------------------------------------
// Commands
// ----------------------------------------------------------------------

/// What a command line asks for, with the option values it carries.
#[derive(Debug, Clone, PartialEq, Eq)]
pub enum CliCommand {
    Help,
    Version,
    Plan {
        campaign_id: String,
        title: String,
        archive: String,
        sha256: String,
        game_dir: String,
        profile_dir: Option<String>,
        output: Option<String>,
    },
    Install {
        campaign_id: String,
        title: String,
        author: String,
        version: String,
        archive: String,
        sha256: String,
        game_dir: String,
        profile_dir: Option<String>,
        output: Option<String>,
    },
    Restore { game_dir: String, profile_dir: Option<String>, target: String, output: Option<String> },
    Installed { game_dir: String, target: String, output: Option<String> },
    Summary { root: String, output: Option<String> },
    ProfileKey { identity: ProfileIdentity, output: Option<String> },
    SortSummary { input: String, output: Option<String> },
    RoundtripCheck { root: String, manifest: String, output: Option<String> },
    LocalInspect { archive: String, output: Option<String> },
    LocalAdd {
        store_dir: Option<String>,
        archive: String,
        title: Option<String>,
        author: Option<String>,
        version: Option<String>,
        output: Option<String>,
    },
    LocalList { store_dir: Option<String>, output: Option<String> },
    LocalRemove { store_dir: Option<String>, id: String, output: Option<String> },
}

/// `CliCommand` over character sequences.
pub enum CommandView {
    Help,
    Version,
    Plan {
        campaign_id: Seq<char>,
        title: Seq<char>,
        archive: Seq<char>,
        sha256: Seq<char>,
        game_dir: Seq<char>,
        profile_dir: Option<Seq<char>>,
        output: Option<Seq<char>>,
    },
    Install {
        campaign_id: Seq<char>,
        title: Seq<char>,
        author: Seq<char>,
        version: Seq<char>,
        archive: Seq<char>,
        sha256: Seq<char>,
        game_dir: Seq<char>,
        profile_dir: Option<Seq<char>>,
        output: Option<Seq<char>>,
    },
    Restore { game_dir: Seq<char>, profile_dir: Option<Seq<char>>, target: Seq<char>, output: Option<Seq<char>> },
    Installed { game_dir: Seq<char>, target: Seq<char>, output: Option<Seq<char>> },
    Summary { root: Seq<char>, output: Option<Seq<char>> },
    ProfileKey {
        family_id: Seq<char>,
        major_version: u32,
        campaign_id: Seq<char>,
        profile_key: Seq<char>,
        output: Option<Seq<char>>,
    },
    SortSummary { input: Seq<char>, output: Option<Seq<char>> },
    RoundtripCheck { root: Seq<char>, manifest: Seq<char>, output: Option<Seq<char>> },
    LocalInspect { archive: Seq<char>, output: Option<Seq<char>> },
    LocalAdd {
        store_dir: Option<Seq<char>>,
        archive: Seq<char>,
        title: Option<Seq<char>>,
        author: Option<Seq<char>>,
        version: Option<Seq<char>>,
        output: Option<Seq<char>>,
    },
    LocalList { store_dir: Option<Seq<char>>, output: Option<Seq<char>> },
    LocalRemove { store_dir: Option<Seq<char>>, id: Seq<char>, output: Option<Seq<char>> },
}

pub open spec fn opt_view(o: Option<String>) -> Option<Seq<char>> {
    match o {
        Some(s) => Some(s@),
        None => None,
    }
}

impl CliCommand {
    pub open spec fn view(&self) -> CommandView {
        match self {
            CliCommand::Help => CommandView::Help,
            CliCommand::Version => CommandView::Version,
            CliCommand::Plan { campaign_id, title, archive, sha256, game_dir, profile_dir, output } => CommandView::Plan {
                campaign_id: campaign_id@,
                title: title@,
                archive: archive@,
                sha256: sha256@,
                game_dir: game_dir@,
                profile_dir: opt_view(*profile_dir),
                output: opt_view(*output),
            },
            CliCommand::Install { campaign_id, title, author, version, archive, sha256, game_dir, profile_dir, output } => {
                CommandView::Install {
                    campaign_id: campaign_id@,
                    title: title@,
                    author: author@,
                    version: version@,
                    archive: archive@,
                    sha256: sha256@,
                    game_dir: game_dir@,
                    profile_dir: opt_view(*profile_dir),
                    output: opt_view(*output),
                }
            },
            CliCommand::Restore { game_dir, profile_dir, target, output } => CommandView::Restore {
                game_dir: game_dir@,
                profile_dir: opt_view(*profile_dir),
                target: target@,
                output: opt_view(*output),
            },
            CliCommand::Installed { game_dir, target, output } => CommandView::Installed {
                game_dir: game_dir@,
                target: target@,
                output: opt_view(*output),
            },
            CliCommand::Summary { root, output } => CommandView::Summary { root: root@, output: opt_view(*output) },
            CliCommand::ProfileKey { identity, output } => CommandView::ProfileKey {
                family_id: identity.family_id@,
                major_version: identity.major_version,
                campaign_id: identity.campaign_id@,
                profile_key: identity.profile_key@,
                output: opt_view(*output),
            },
            CliCommand::SortSummary { input, output } => CommandView::SortSummary { input: input@, output: opt_view(*output) },
            CliCommand::RoundtripCheck { root, manifest, output } => CommandView::RoundtripCheck {
                root: root@,
                manifest: manifest@,
                output: opt_view(*output),
            },
            CliCommand::LocalInspect { archive, output } => CommandView::LocalInspect {
                archive: archive@,
                output: opt_view(*output),
            },
            CliCommand::LocalAdd { store_dir, archive, title, author, version, output } => CommandView::LocalAdd {
                store_dir: opt_view(*store_dir),
                archive: archive@,
                title: opt_view(*title),
                author: opt_view(*author),
                version: opt_view(*version),
                output: opt_view(*output),
            },
            CliCommand::LocalList { store_dir, output } => CommandView::LocalList {
                store_dir: opt_view(*store_dir),
                output: opt_view(*output),
            },
            CliCommand::LocalRemove { store_dir, id, output } => CommandView::LocalRemove {
                store_dir: opt_view(*store_dir),
                id: id@,
                output: opt_view(*output),
            },
        }
    }
}

/// The error of the first of `names` that is not a given, non-blank option.
pub open spec fn first_missing(e: Seq<(Seq<char>, Seq<char>)>, names: Seq<Seq<char>>) -> Option<Seq<char>>
    decreases names.len(),
{
    if names.len() == 0 {
        None
    } else {
        match required_outcome(e, names[0]) {
            Err(m) => Some(m),
            Ok(_) => first_missing(e, names.drop_first()),
        }
    }
}

pub open spec fn value_of(e: Seq<(Seq<char>, Seq<char>)>, name: Seq<char>) -> Seq<char> {
    match option_value(e, name) {
        Some(v) => v,
        None => Seq::empty(),
    }
}

pub open spec fn profile_key_outcome(e: Seq<(Seq<char>, Seq<char>)>) -> Result<CommandView, Seq<char>> {
    match required_outcome(e, "family"@) {
        Err(m) => Err(m),
        Ok(family) => match required_outcome(e, "major"@) {
            Err(m) => Err(m),
            Ok(major_text) => match u32_text(major_text) {
                None => Err("--major must be a positive integer"@),
                Some(major) => match required_outcome(e, "campaign-id"@) {
                    Err(m) => Err(m),
                    Ok(campaign) => match identity_outcome(family, major, campaign) {
                        Err(m) => Err(m),
                        Ok((f, c)) => Ok(
                            CommandView::ProfileKey {
                                family_id: f,
                                major_version: major,
                                campaign_id: c,
                                profile_key: crate::profile_core::profile_key_spec(f, major),
                                output: option_value(e, "output"@),
                            },
                        ),
                    },
                },
            },
        },
    }
}

/// What `run_arguments` does with command `command` and options `e`.
pub open spec fn command_from_options(command: Seq<char>, e: Seq<(Seq<char>, Seq<char>)>) -> Result<CommandView, Seq<char>> {
    let out = option_value(e, "output"@);
    if command == "plan"@ {
        match first_missing(e, seq!["campaign-id"@, "title"@, "archive"@, "sha256"@, "game-dir"@]) {
            Some(m) => Err(m),
            None => Ok(
                CommandView::Plan {
                    campaign_id: value_of(e, "campaign-id"@),
                    title: value_of(e, "title"@),
                    archive: value_of(e, "archive"@),
                    sha256: value_of(e, "sha256"@),
                    game_dir: value_of(e, "game-dir"@),
                    profile_dir: option_value(e, "profile-dir"@),
                    output: out,
                },
            ),
        }
    } else if command == "install"@ {
        match required_outcome(e, "confirm"@) {
            Err(m) => Err(m),
            Ok(c) => if c != "APPLY"@ {
                Err("Refusing install: pass --confirm APPLY after reviewing a dry-run."@)
            } else {
                match first_missing(e, seq!["campaign-id"@, "title"@, "archive"@, "sha256"@, "game-dir"@]) {
                    Some(m) => Err(m),
                    None => Ok(
                        CommandView::Install {
                            campaign_id: value_of(e, "campaign-id"@),
                            title: value_of(e, "title"@),
                            author: value_of(e, "author"@),
                            version: value_of(e, "version"@),
                            archive: value_of(e, "archive"@),
                            sha256: value_of(e, "sha256"@),
                            game_dir: value_of(e, "game-dir"@),
                            profile_dir: option_value(e, "profile-dir"@),
                            output: out,
                        },
                    ),
                }
            },
        }
    } else if command == "restore"@ {
        match required_outcome(e, "confirm"@) {
            Err(m) => Err(m),
            Ok(c) => if c != "RESTORE"@ {
                Err("Refusing restore: pass --confirm RESTORE after reviewing the active install."@)
            } else {
                match first_missing(e, seq!["game-dir"@, "target"@]) {
                    Some(m) => Err(m),
                    None => Ok(
                        CommandView::Restore {
                            game_dir: value_of(e, "game-dir"@),
                            profile_dir: option_value(e, "profile-dir"@),
                            target: value_of(e, "target"@),
                            output: out,
                        },
                    ),
                }
            },
        }
    } else if command == "installed"@ {
        match first_missing(e, seq!["game-dir"@, "target"@]) {
            Some(m) => Err(m),
            None => Ok(CommandView::Installed { game_dir: value_of(e, "game-dir"@), target: value_of(e, "target"@), output: out }),
        }
    } else if command == "summary"@ || command == "inspect"@ {
        match required_outcome(e, "root"@) {
            Err(m) => Err(m),
            Ok(root) => Ok(CommandView::Summary { root, output: out }),
        }
    } else if command == "profile-key"@ {
        profile_key_outcome(e)
    } else if command == "sort-summary"@ {
        match required_outcome(e, "input"@) {
            Err(m) => Err(m),
            Ok(input) => Ok(CommandView::SortSummary { input, output: out }),
        }
    } else if command == "roundtrip-check"@ {
        match first_missing(e, seq!["root"@, "manifest"@]) {
            Some(m) => Err(m),
            None => Ok(CommandView::RoundtripCheck { root: value_of(e, "root"@), manifest: value_of(e, "manifest"@), output: out }),
        }
    } else if command == "local-inspect"@ {
        match required_outcome(e, "archive"@) {
            Err(m) => Err(m),
            Ok(archive) => Ok(CommandView::LocalInspect { archive, output: out }),
        }
    } else if command == "local-add"@ {
        match required_outcome(e, "archive"@) {
            Err(m) => Err(m),
            Ok(archive) => Ok(
                CommandView::LocalAdd {
                    store_dir: option_value(e, "store-dir"@),
                    archive,
                    title: option_value(e, "title"@),
                    author: option_value(e, "author"@),
                    version: option_value(e, "version"@),
                    output: out,
                },
            ),
        }
    } else if command == "local-list"@ {
        Ok(CommandView::LocalList { store_dir: option_value(e, "store-dir"@), output: out })
    } else if command == "local-remove"@ {
        match required_outcome(e, "id"@) {
            Err(m) => Err(m),
            Ok(id) => Ok(CommandView::LocalRemove { store_dir: option_value(e, "store-dir"@), id, output: out }),
        }
    } else if command == "--version"@ || command == "-V"@ {
        Ok(CommandView::Version)
    } else {
        Err("unknown command "@ + debug_text(command) + "; run `ccm --help`"@)
    }
}

pub open spec fn asks_for_help(args: Seq<Seq<char>>) -> bool {
    args.len() == 0 || (exists|i: int| 0 <= i < args.len() && (#[trigger] args[i] == "--help"@ || args[i] == "-h"@))
        || args[0] == "help"@
}

/// `run_arguments`, up to running the command: help, or the command and its
/// options, or why the command line is refused.
pub open spec fn command_outcome(args: Seq<Seq<char>>) -> Result<CommandView, Seq<char>> {
    if asks_for_help(args) {
        Ok(CommandView::Help)
    } else {
        match options_outcome(args.skip(1)) {
            Err(m) => Err(m),
            Ok(e) => command_from_options(args[0], e),
        }
    }
}

fn text_is(a: &str, b: &str) -> (r: bool)
    ensures
        r == (a@ == b@),
{
    chars_eq(&chars_of(a), &chars_of(b))
}

/// The values of options that `first_missing` found present.
fn required_values(options: &CliOptions, names: &[&str]) -> (r: Result<Vec<String>, String>)
    ensures
        match r {
            Ok(v) => first_missing(options.view(), names@.map_values(|n: &str| n@)) is None && v@.len() == names@.len()
                && forall|i: int| 0 <= i < names@.len() ==> #[trigger] v@[i]@ == value_of(options.view(), names@[i]@),
            Err(m) => first_missing(options.view(), names@.map_values(|n: &str| n@)) == Some(m@),
        },
{
    let ghost nv = names@.map_values(|n: &str| n@);
    let mut out: Vec<String> = Vec::new();
    let mut i: usize = 0;
    proof {
        assert(nv.skip(0) =~= nv);
    }
    while i < names.len()
        invariant
            i <= names.len(),
            nv == names@.map_values(|n: &str| n@),
            out@.len() == i,
            first_missing(options.view(), nv) == first_missing(options.view(), nv.skip(i as int)),
            forall|j: int| 0 <= j < i ==> #[trigger] out@[j]@ == value_of(options.view(), names@[j]@),
        decreases names.len() - i,
    {
        proof {
            assert(nv.skip(i as int)[0] == names@[i as int]@);
            assert(nv.skip(i as int).drop_first() =~= nv.skip(i as int + 1));
        }
        let v = required(options, names[i])?;
        out.push(v);
        i = i + 1;
    }
    proof {
        assert(nv.skip(i as int) =~= Seq::<Seq<char>>::empty());
    }
    Ok(out)
}

fn value_or_empty(options: &CliOptions, name: &str) -> (r: String)
    ensures
        r@ == value_of(options.view(), name@),
{
    match options.get(name) {
        Some(v) => v,
        None => String::new(),
    }
}

fn plan_command(options: &CliOptions) -> (r: Result<CliCommand, String>)
    ensures
        match r {
            Ok(c) => command_from_options("plan"@, options.view()) == Ok::<CommandView, Seq<char>>(c.view()),
            Err(m) => command_from_options("plan"@, options.view()) == Err::<CommandView, Seq<char>>(m@),
        },
{
    let names = ["campaign-id", "title", "archive", "sha256", "game-dir"];
    proof {
        assert(names@.map_values(|n: &str| n@) =~= seq!["campaign-id"@, "title"@, "archive"@, "sha256"@, "game-dir"@]);
    }
    let v = required_values(options, &names)?;
    Ok(CliCommand::Plan {
        campaign_id: owned(v[0].as_str()),
        title: owned(v[1].as_str()),
        archive: owned(v[2].as_str()),
        sha256: owned(v[3].as_str()),
        game_dir: owned(v[4].as_str()),
        profile_dir: options.get("profile-dir"),
        output: options.get("output"),
    })
}

fn install_command(options: &CliOptions) -> (r: Result<CliCommand, String>)
    ensures
        match r {
            Ok(c) => command_from_options("install"@, options.view()) == Ok::<CommandView, Seq<char>>(c.view()),
            Err(m) => command_from_options("install"@, options.view()) == Err::<CommandView, Seq<char>>(m@),
        },
{
    proof {
        reveal_strlit("install");
        reveal_strlit("plan");
        assert("install"@.len() == 7);
        assert("install"@ != "plan"@);
    }
    let confirm = required(options, "confirm")?;
    if !text_is(confirm.as_str(), "APPLY") {
        return Err(owned("Refusing install: pass --confirm APPLY after reviewing a dry-run."));
    }
    let names = ["campaign-id", "title", "archive", "sha256", "game-dir"];
    proof {
        assert(names@.map_values(|n: &str| n@) =~= seq!["campaign-id"@, "title"@, "archive"@, "sha256"@, "game-dir"@]);
    }
    let v = required_values(options, &names)?;
    Ok(CliCommand::Install {
        campaign_id: owned(v[0].as_str()),
        title: owned(v[1].as_str()),
        author: value_or_empty(options, "author"),
        version: value_or_empty(options, "version"),
        archive: owned(v[2].as_str()),
        sha256: owned(v[3].as_str()),
        game_dir: owned(v[4].as_str()),
        profile_dir: options.get("profile-dir"),
        output: options.get("output"),
    })
}

fn restore_command(options: &CliOptions) -> (r: Result<CliCommand, String>)
    ensures
        match r {
            Ok(c) => command_from_options("restore"@, options.view()) == Ok::<CommandView, Seq<char>>(c.view()),
            Err(m) => command_from_options("restore"@, options.view()) == Err::<CommandView, Seq<char>>(m@),
        },
{
    proof {
        reveal_strlit("restore");
        reveal_strlit("install");
        reveal_strlit("plan");
        assert("restore"@.len() == 7);
        assert("restore"@ != "plan"@);
        assert("restore"@[0] != "install"@[0]);
        assert("restore"@ != "install"@);
    }
    let confirm = required(options, "confirm")?;
    if !text_is(confirm.as_str(), "RESTORE") {
        return Err(owned("Refusing restore: pass --confirm RESTORE after reviewing the active install."));
    }
    let names = ["game-dir", "target"];
    proof {
        assert(names@.map_values(|n: &str| n@) =~= seq!["game-dir"@, "target"@]);
    }
    let v = required_values(options, &names)?;
    Ok(CliCommand::Restore {
        game_dir: owned(v[0].as_str()),
        profile_dir: options.get("profile-dir"),
        target: owned(v[1].as_str()),
        output: options.get("output"),
    })
}

fn two_value_command(options: &CliOptions, command: &str, first: &str, second: &str) -> (r: Result<(String, String), String>)
    ensures
        match r {
            Ok((a, b)) => first_missing(options.view(), seq![first@, second@]) is None && a@ == value_of(options.view(), first@)
                && b@ == value_of(options.view(), second@),
            Err(m) => first_missing(options.view(), seq![first@, second@]) == Some(m@),
        },
{
    let names = [first, second];
    proof {
        assert(names@.map_values(|n: &str| n@) =~= seq![first@, second@]);
    }
    let v = required_values(options, &names)?;
    Ok((owned(v[0].as_str()), owned(v[1].as_str())))
}

fn profile_key_command(options: &CliOptions) -> (r: Result<CliCommand, String>)
    ensures
        match r {
            Ok(c) => profile_key_outcome(options.view()) == Ok::<CommandView, Seq<char>>(c.view()),
            Err(m) => profile_key_outcome(options.view()) == Err::<CommandView, Seq<char>>(m@),
        },
{
    let family = required(options, "family")?;
    let major_text = required(options, "major")?;
    let major = match parse_u32(major_text.as_str()) {
        Some(n) => n,
        None => {
            return Err(owned("--major must be a positive integer"));
        },
    };
    let campaign = required(options, "campaign-id")?;
    let identity = ProfileIdentity::new(family.as_str(), major, campaign.as_str())?;
    Ok(CliCommand::ProfileKey { identity, output: options.get("output") })
}

fn command_for(command: &str, options: &CliOptions) -> (r: Result<CliCommand, String>)
    ensures
        match r {
            Ok(c) => command_from_options(command@, options.view()) == Ok::<CommandView, Seq<char>>(c.view()),
            Err(m) => command_from_options(command@, options.view()) == Err::<CommandView, Seq<char>>(m@),
        },
{
    let output = options.get("output");
    if text_is(command, "plan") {
        plan_command(options)
    } else if text_is(command, "install") {
        install_command(options)
    } else if text_is(command, "restore") {
        restore_command(options)
    } else if text_is(command, "installed") {
        let (game_dir, target) = two_value_command(options, command, "game-dir", "target")?;
        Ok(CliCommand::Installed { game_dir, target, output })
    } else if text_is(command, "summary") || text_is(command, "inspect") {
        let root = required(options, "root")?;
        Ok(CliCommand::Summary { root, output })
    } else if text_is(command, "profile-key") {
        profile_key_command(options)
    } else if text_is(command, "sort-summary") {
        let input = required(options, "input")?;
        Ok(CliCommand::SortSummary { input, output })
    } else if text_is(command, "roundtrip-check") {
        let (root, manifest) = two_value_command(options, command, "root", "manifest")?;
        Ok(CliCommand::RoundtripCheck { root, manifest, output })
    } else if text_is(command, "local-inspect") {
        let archive = required(options, "archive")?;
        Ok(CliCommand::LocalInspect { archive, output })
    } else if text_is(command, "local-add") {
        let archive = required(options, "archive")?;
        Ok(CliCommand::LocalAdd {
            store_dir: options.get("store-dir"),
            archive,
            title: options.get("title"),
            author: options.get("author"),
            version: options.get("version"),
            output,
        })
    } else if text_is(command, "local-list") {
        Ok(CliCommand::LocalList { store_dir: options.get("store-dir"), output })
    } else if text_is(command, "local-remove") {
        let id = required(options, "id")?;
        Ok(CliCommand::LocalRemove { store_dir: options.get("store-dir"), id, output })
    } else if text_is(command, "--version") || text_is(command, "-V") {
        Ok(CliCommand::Version)
    } else {
        let m = concat_chars(&chars_of("unknown command "), &chars_of(debug_quoted(command).as_str()));
        Err(string_from_chars(&concat_chars(&m, &chars_of("; run `ccm --help`"))))
    }
}

/// `run_arguments` up to running the command: what the arguments ask for.
pub fn parse_command(arguments: &[String]) -> (r: Result<CliCommand, String>)
    ensures
        match r {
            Ok(c) => command_outcome(arguments@.map_values(|a: String| a@)) == Ok::<CommandView, Seq<char>>(c.view()),
            Err(m) => command_outcome(arguments@.map_values(|a: String| a@)) == Err::<CommandView, Seq<char>>(m@),
        },
{
    let ghost args = arguments@.map_values(|a: String| a@);
    if arguments.len() == 0 {
        return Ok(CliCommand::Help);
    }
    let mut i: usize = 0;
    while i < arguments.len()
        invariant
            i <= arguments.len(),
            args == arguments@.map_values(|a: String| a@),
            forall|j: int| 0 <= j < i ==> !(#[trigger] args[j] == "--help"@ || args[j] == "-h"@),
        decreases arguments.len() - i,
    {
        if text_is(arguments[i].as_str(), "--help") || text_is(arguments[i].as_str(), "-h") {
            proof {
                assert(args[i as int] == arguments@[i as int]@);
            }
            return Ok(CliCommand::Help);
        }
        i = i + 1;
    }
    let command = arguments[0].as_str();
    if text_is(command, "help") {
        return Ok(CliCommand::Help);
    }
    let mut rest: Vec<String> = Vec::new();
    let mut k: usize = 1;
    while k < arguments.len()
        invariant
            1 <= k <= arguments.len(),
            args == arguments@.map_values(|a: String| a@),
            rest@.map_values(|a: String| a@) == args.subrange(1, k as int),
        decreases arguments.len() - k,
    {
        let ghost before = rest@;
        rest.push(owned(arguments[k].as_str()));
        proof {
            assert(rest@.map_values(|a: String| a@) =~= before.map_values(|a: String| a@).push(args[k as int]));
            assert(args.subrange(1, k as int + 1) =~= args.subrange(1, k as int).push(args[k as int]));
        }
        k = k + 1;
    }
    proof {
        assert(args.subrange(1, args.len() as int) =~= args.skip(1));
        assert(!asks_for_help(args));
    }
    let options = parse_options(&rest)?;
    command_for(command, &options)
}

} // verus!
