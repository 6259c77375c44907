//! The command-line surface as plain data: the argument records each
//! subcommand carries, and the flags they pass through to the underlying
//! build tool.  Parsing the actual command line happens outside; these
//! types hold its result.

use vstd::prelude::*;

use crate::installable::Installable;
use crate::text::dec_digits;

verus! {

/// When to display a package diff after a rebuild.
#[derive(Debug, Clone)]
pub enum DiffType {
    /// Only when the current and deployed configurations match.
    Auto,
    /// Always.
    Always,
    /// Never.
    Never,
}

/// Arguments for updating flake inputs before a rebuild.
#[derive(Debug, Clone)]
pub struct UpdateArgs {
    /// Update all flake inputs.
    pub update_all: bool,
    /// Update only the named flake inputs.
    pub update_input: Option<Vec<String>>,
}

/// Flags passed through to the underlying build tool.
#[derive(Debug, Clone, Default)]
pub struct NixBuildPassthroughArgs {
    /// Number of concurrent jobs the tool should run.
    pub max_jobs: Option<u64>,
    /// Number of cores the tool should utilize.
    pub cores: Option<u64>,
    /// Logging format used by the tool.
    pub log_format: Option<String>,
    /// Continue building despite encountering errors.
    pub keep_going: bool,
    /// Keep build outputs from failed builds.
    pub keep_failed: bool,
    /// Attempt to build locally if substituters fail.
    pub fallback: bool,
    /// Repair corrupted store paths.
    pub repair: bool,
    /// Explicitly defined remote builders.
    pub builders: Option<String>,
    /// Entries added to the tool's expression search path.
    pub search_path: Vec<String>,
    /// Print build logs directly to stdout.
    pub print_build_logs: bool,
    /// Display tracebacks on errors.
    pub show_trace: bool,
    /// Accept configuration from flakes.
    pub accept_flake_config: bool,
    /// Refresh flakes to the latest revision.
    pub refresh: bool,
    /// Allow impure builds.
    pub impure: bool,
    /// Build without internet access.
    pub offline: bool,
    /// Prohibit network usage.
    pub no_net: bool,
    /// Recreate the lock file entirely.
    pub recreate_lock_file: bool,
    /// Do not update the lock file.
    pub no_update_lock_file: bool,
    /// Do not write a lock file.
    pub no_write_lock_file: bool,
    /// Ignore registries.
    pub no_registries: bool,
    /// Commit the lock file after updates.
    pub commit_lock_file: bool,
    /// Suppress build output.
    pub no_build_output: bool,
    /// Use substitutes when copying.
    pub use_substitutes: bool,
    /// Output results in JSON format.
    pub json: bool,
}

/// A boolean flag's contribution to the argument list.
pub open spec fn flag_arg(on: bool, name: Seq<char>) -> Seq<Seq<char>> {
    if on {
        seq![name]
    } else {
        Seq::empty()
    }
}

/// A numeric option's contribution to the argument list.
pub open spec fn num_arg(v: Option<u64>, name: Seq<char>) -> Seq<Seq<char>> {
    match v {
        Some(n) => seq![name, dec_digits(n as int)],
        None => Seq::empty(),
    }
}

/// A string option's contribution to the argument list.
pub open spec fn str_arg(v: Option<String>, name: Seq<char>) -> Seq<Seq<char>> {
    match v {
        Some(s) => seq![name, s@],
        None => Seq::empty(),
    }
}

/// The flag that adds one entry to the tool's expression search path.
pub open spec fn search_path_flag() -> Seq<char> {
    seq!['-', '-', 'i', 'n', 'c', 'l', 'u', 'd', 'e']
}

/// The search-path entries' contribution: the search-path flag before
/// each one.
pub open spec fn search_path_args(xs: Seq<Seq<char>>) -> Seq<Seq<char>>
    decreases xs.len(),
{
    if xs.len() == 0 {
        Seq::empty()
    } else {
        search_path_args(xs.drop_last()) + seq![search_path_flag(), xs.last()]
    }
}

/// Render the search-path flag.
fn render_search_path_flag() -> (r: String)
    ensures
        r@ == search_path_flag(),
{
    let mut cs: Vec<char> = Vec::new();
    cs.push('-');
    cs.push('-');
    cs.push('i');
    cs.push('n');
    cs.push('c');
    cs.push('l');
    cs.push('u');
    cs.push('d');
    cs.push('e');
    assert(cs@ =~= search_path_flag());
    crate::text::string_from_chars(&cs)
}

/// The leading pass-through arguments: job control, logging, build
/// robustness, and builders.
pub open spec fn passthrough_head_spec(a: NixBuildPassthroughArgs) -> Seq<Seq<char>> {
    num_arg(a.max_jobs, "--max-jobs"@) + num_arg(a.cores, "--cores"@) + str_arg(
        a.log_format,
        "--log-format"@,
    ) + flag_arg(a.keep_going, "--keep-going"@) + flag_arg(a.keep_failed, "--keep-failed"@)
        + flag_arg(a.fallback, "--fallback"@) + flag_arg(a.repair, "--repair"@) + str_arg(
        a.builders,
        "--builders"@,
    )
}

/// The middle pass-through arguments: search path, output and evaluation
/// switches.
pub open spec fn passthrough_mid_spec(a: NixBuildPassthroughArgs) -> Seq<Seq<char>> {
    search_path_args(a.search_path@.map_values(|x: String| x@)) + flag_arg(
        a.print_build_logs,
        "--print-build-logs"@,
    ) + flag_arg(a.show_trace, "--show-trace"@) + flag_arg(
        a.accept_flake_config,
        "--accept-flake-config"@,
    ) + flag_arg(a.refresh, "--refresh"@) + flag_arg(a.impure, "--impure"@) + flag_arg(
        a.offline,
        "--offline"@,
    ) + flag_arg(a.no_net, "--no-net"@)
}

/// The trailing pass-through arguments: lock-file handling and copying.
pub open spec fn passthrough_tail_spec(a: NixBuildPassthroughArgs) -> Seq<Seq<char>> {
    flag_arg(a.recreate_lock_file, "--recreate-lock-file"@) + flag_arg(
        a.no_update_lock_file,
        "--no-update-lock-file"@,
    ) + flag_arg(a.no_write_lock_file, "--no-write-lock-file"@) + flag_arg(
        a.no_registries,
        "--no-registries"@,
    ) + flag_arg(a.commit_lock_file, "--commit-lock-file"@) + flag_arg(
        a.no_build_output,
        "--no-build-output"@,
    ) + flag_arg(a.use_substitutes, "--use-substitutes"@) + flag_arg(a.json, "--json"@)
}

/// The full pass-through argument list, in declaration order.
pub open spec fn passthrough_args_spec(a: NixBuildPassthroughArgs) -> Seq<Seq<char>> {
    passthrough_head_spec(a) + passthrough_mid_spec(a) + passthrough_tail_spec(a)
}

/// Append a boolean flag's rendering.
fn push_flag(args: &mut Vec<String>, on: bool, name: &str)
    ensures
        final(args)@.map_values(|s: String| s@) == old(args)@.map_values(|s: String| s@)
            + flag_arg(on, name@),
{
    let ghost before = args@.map_values(|s: String| s@);
    if on {
        args.push(name.to_owned());
        assert(args@.map_values(|s: String| s@) =~= before + flag_arg(on, name@));
    } else {
        assert(args@.map_values(|s: String| s@) =~= before + flag_arg(on, name@));
    }
}

/// Append a numeric option's rendering.
fn push_num_arg(args: &mut Vec<String>, v: Option<u64>, name: &str)
    ensures
        final(args)@.map_values(|s: String| s@) == old(args)@.map_values(|s: String| s@)
            + num_arg(v, name@),
{
    let ghost before = args@.map_values(|s: String| s@);
    match v {
        Some(n) => {
            args.push(name.to_owned());
            args.push(crate::text::u64_to_string(n));
            assert(args@.map_values(|s: String| s@) =~= before + num_arg(v, name@));
        }
        None => {
            assert(args@.map_values(|s: String| s@) =~= before + num_arg(v, name@));
        }
    }
}

/// Append a string option's rendering.
fn push_str_arg(args: &mut Vec<String>, v: &Option<String>, name: &str)
    ensures
        final(args)@.map_values(|s: String| s@) == old(args)@.map_values(|s: String| s@)
            + str_arg(*v, name@),
{
    let ghost before = args@.map_values(|s: String| s@);
    match v {
        Some(x) => {
            args.push(name.to_owned());
            args.push(x.clone());
            assert(args@.map_values(|s: String| s@) =~= before + str_arg(*v, name@));
        }
        None => {
            assert(args@.map_values(|s: String| s@) =~= before + str_arg(*v, name@));
        }
    }
}

impl NixBuildPassthroughArgs {
    fn passthrough_head(&self) -> (r: Vec<String>)
        ensures
            r@.map_values(|s: String| s@) == passthrough_head_spec(*self),
    {
        let mut args: Vec<String> = Vec::new();
        assert(args@.map_values(|s: String| s@) =~= Seq::<Seq<char>>::empty());
        push_num_arg(&mut args, self.max_jobs, "--max-jobs");
        push_num_arg(&mut args, self.cores, "--cores");
        push_str_arg(&mut args, &self.log_format, "--log-format");
        push_flag(&mut args, self.keep_going, "--keep-going");
        push_flag(&mut args, self.keep_failed, "--keep-failed");
        push_flag(&mut args, self.fallback, "--fallback");
        push_flag(&mut args, self.repair, "--repair");
        push_str_arg(&mut args, &self.builders, "--builders");
        assert(args@.map_values(|s: String| s@) =~= passthrough_head_spec(*self));
        args
    }

    fn passthrough_mid(&self) -> (r: Vec<String>)
        ensures
            r@.map_values(|s: String| s@) == passthrough_mid_spec(*self),
    {
        let mut args: Vec<String> = Vec::new();
        let ghost incs = self.search_path@.map_values(|x: String| x@);
        let mut i: usize = 0;
        proof {
            assert(incs.take(0) =~= Seq::<Seq<char>>::empty());
            assert(search_path_args(incs.take(0)) =~= Seq::<Seq<char>>::empty());
            assert(args@.map_values(|s: String| s@) =~= search_path_args(incs.take(0)));
        }
        while i < self.search_path.len()
            invariant
                0 <= i <= self.search_path@.len(),
                incs == self.search_path@.map_values(|x: String| x@),
                args@.map_values(|s: String| s@) == search_path_args(incs.take(i as int)),
            decreases self.search_path@.len() - i,
        {
            let ghost before = args@.map_values(|s: String| s@);
            args.push(render_search_path_flag());
            args.push(self.search_path[i].clone());
            proof {
                assert(incs.take(i + 1).drop_last() =~= incs.take(i as int));
                assert(incs.take(i + 1).last() == incs[i as int]);
                assert(args@.map_values(|s: String| s@)
                    =~= before + seq![search_path_flag(), incs[i as int]]);
                assert(args@.map_values(|s: String| s@)
                    =~= search_path_args(incs.take(i + 1)));
            }
            i = i + 1;
        }
        proof {
            assert(incs.take(incs.len() as int) =~= incs);
        }
        push_flag(&mut args, self.print_build_logs, "--print-build-logs");
        push_flag(&mut args, self.show_trace, "--show-trace");
        push_flag(&mut args, self.accept_flake_config, "--accept-flake-config");
        push_flag(&mut args, self.refresh, "--refresh");
        push_flag(&mut args, self.impure, "--impure");
        push_flag(&mut args, self.offline, "--offline");
        push_flag(&mut args, self.no_net, "--no-net");
        assert(args@.map_values(|s: String| s@) =~= passthrough_mid_spec(*self));
        args
    }

    fn passthrough_tail(&self) -> (r: Vec<String>)
        ensures
            r@.map_values(|s: String| s@) == passthrough_tail_spec(*self),
    {
        let mut args: Vec<String> = Vec::new();
        assert(args@.map_values(|s: String| s@) =~= Seq::<Seq<char>>::empty());
        push_flag(&mut args, self.recreate_lock_file, "--recreate-lock-file");
        push_flag(&mut args, self.no_update_lock_file, "--no-update-lock-file");
        push_flag(&mut args, self.no_write_lock_file, "--no-write-lock-file");
        push_flag(&mut args, self.no_registries, "--no-registries");
        push_flag(&mut args, self.commit_lock_file, "--commit-lock-file");
        push_flag(&mut args, self.no_build_output, "--no-build-output");
        push_flag(&mut args, self.use_substitutes, "--use-substitutes");
        push_flag(&mut args, self.json, "--json");
        assert(args@.map_values(|s: String| s@) =~= passthrough_tail_spec(*self));
        args
    }

    /// Render every set pass-through flag, in declaration order, as the
    /// arguments handed to the underlying tool.
    pub fn generate_passthrough_args(&self) -> (r: Vec<String>)
        ensures
            r@.map_values(|s: String| s@) == passthrough_args_spec(*self),
    {
        let mut args = self.passthrough_head();
        let mut mid = self.passthrough_mid();
        let mut tail = self.passthrough_tail();
        args.append(&mut mid);
        args.append(&mut tail);
        assert(args@.map_values(|s: String| s@) =~= passthrough_args_spec(*self));
        args
    }
}

/// Arguments shared by every rebuild-like subcommand.
#[derive(Debug, Clone)]
pub struct CommonRebuildArgs {
    /// Only print actions, without performing them.
    pub dry: bool,
    /// Ask for confirmation.
    pub ask: bool,
    /// What to build.
    pub installable: Installable,
    /// Do not use the build-output monitor.
    pub no_nom: bool,
    /// Where to save the result link; a temporary directory otherwise.
    pub out_link: Option<String>,
    /// Whether to display a package diff.
    pub diff: DiffType,
    /// Flags passed through to the underlying tool.
    pub passthrough: NixBuildPassthroughArgs,
}

/// Arguments for the OS rebuild subcommands.
#[derive(Debug, Clone)]
pub struct OsRebuildArgs {
    /// Arguments shared by rebuild-like subcommands.
    pub common: CommonRebuildArgs,
    /// Flake-input update requests.
    pub update_args: UpdateArgs,
    /// Hostname to select from the flake's configurations.
    pub hostname: Option<String>,
    /// Explicitly selected specialisation.
    pub specialisation: Option<String>,
    /// Ignore specialisations.
    pub no_specialisation: bool,
    /// Extra arguments passed to the build.
    pub extra_args: Vec<String>,
    /// Do not refuse to run as the superuser.
    pub bypass_root_check: bool,
    /// Deploy the configuration to a different host over ssh.
    pub target_host: Option<String>,
    /// Build the configuration on a different host over ssh.
    pub build_host: Option<String>,
}

/// Arguments for building an OS virtual-machine image.
#[derive(Debug, Clone)]
pub struct OsBuildVmArgs {
    /// The rebuild arguments shared with the other OS subcommands.
    pub common: OsRebuildArgs,
    /// Build with a bootloader.
    pub with_bootloader: bool,
}

/// Arguments for loading an OS configuration in a repl.
#[derive(Debug, Clone)]
pub struct OsReplArgs {
    /// What to load.
    pub installable: Installable,
    /// Hostname to select from the flake's configurations.
    pub hostname: Option<String>,
}

/// Arguments for listing OS generations.
#[derive(Debug, Clone)]
pub struct OsGenerationsArgs {
    /// Path to the profiles directory.
    pub profile: Option<String>,
}

/// Arguments for rolling back to a previous OS generation.
#[derive(Debug, Clone)]
pub struct OsRollbackArgs {
    /// Only print actions, without performing them.
    pub dry: bool,
    /// Ask for confirmation.
    pub ask: bool,
    /// Explicitly selected specialisation.
    pub specialisation: Option<String>,
    /// Ignore specialisations.
    pub no_specialisation: bool,
    /// Roll back to this generation number instead of the previous one.
    pub to: Option<u64>,
    /// Do not refuse to run as the superuser.
    pub bypass_root_check: bool,
    /// Whether to display a package diff.
    pub diff: DiffType,
}

/// The OS subcommands.
#[derive(Debug, Clone)]
pub enum OsSubcommand {
    /// Build and activate the new configuration, and make it the boot
    /// default.
    Switch(OsRebuildArgs),
    /// Build the new configuration and make it the boot default.
    Boot(OsRebuildArgs),
    /// Build and activate the new configuration.
    Test(OsRebuildArgs),
    /// Build the new configuration.
    Build(OsRebuildArgs),
    /// Load the system in a repl.
    Repl(OsReplArgs),
    /// List available generations.
    Info(OsGenerationsArgs),
    /// Roll back to a previous generation.
    Rollback(OsRollbackArgs),
    /// Build a virtual-machine image.
    BuildVm(OsBuildVmArgs),
}

/// Arguments of the OS command.
#[derive(Debug, Clone)]
pub struct OsArgs {
    /// The selected subcommand.
    pub subcommand: OsSubcommand,
}

/// Arguments for searching packages.
#[derive(Debug, Clone)]
pub struct SearchArgs {
    /// Number of results to display.
    pub limit: u64,
    /// Name of the channel to query.
    pub channel: String,
    /// Show supported platforms for each package.
    pub platforms: bool,
    /// Output results as JSON.
    pub json: bool,
    /// Name of the package to search.
    pub query: Vec<String>,
}

/// Where the search takes its package set from.
#[derive(Debug, Clone)]
pub enum SearchNixpkgsFrom {
    /// From a flake.
    Flake,
    /// From a path.
    Path,
}

/// Arguments for the home-manager rebuild subcommands.
#[derive(Debug, Clone)]
pub struct HomeRebuildArgs {
    /// Arguments shared by rebuild-like subcommands.
    pub common: CommonRebuildArgs,
    /// Flake-input update requests.
    pub update_args: UpdateArgs,
    /// Name of the flake's home configuration attribute.
    pub configuration: Option<String>,
    /// Explicitly selected specialisation.
    pub specialisation: Option<String>,
    /// Ignore specialisations.
    pub no_specialisation: bool,
    /// Extra arguments passed to the build.
    pub extra_args: Vec<String>,
    /// Back up existing files with this extension.
    pub backup_extension: Option<String>,
}

/// Arguments for loading a home configuration in a repl.
#[derive(Debug, Clone)]
pub struct HomeReplArgs {
    /// What to load.
    pub installable: Installable,
    /// Name of the flake's home configuration attribute.
    pub configuration: Option<String>,
    /// Extra arguments passed to the repl.
    pub extra_args: Vec<String>,
}

/// The home-manager subcommands.
#[derive(Debug, Clone)]
pub enum HomeSubcommand {
    /// Build and activate a home configuration.
    Switch(HomeRebuildArgs),
    /// Build a home configuration.
    Build(HomeRebuildArgs),
    /// Load a home configuration in a repl.
    Repl(HomeReplArgs),
}

/// Arguments of the home-manager command.
#[derive(Debug, Clone)]
pub struct HomeArgs {
    /// The selected subcommand.
    pub subcommand: HomeSubcommand,
}

/// Arguments for the nix-darwin rebuild subcommands.
#[derive(Debug, Clone)]
pub struct DarwinRebuildArgs {
    /// Arguments shared by rebuild-like subcommands.
    pub common: CommonRebuildArgs,
    /// Flake-input update requests.
    pub update_args: UpdateArgs,
    /// Hostname to select from the flake's configurations.
    pub hostname: Option<String>,
    /// Extra arguments passed to the build.
    pub extra_args: Vec<String>,
    /// Do not refuse to run as the superuser.
    pub bypass_root_check: bool,
}

/// Arguments for loading a nix-darwin configuration in a repl.
#[derive(Debug, Clone)]
pub struct DarwinReplArgs {
    /// What to load.
    pub installable: Installable,
    /// Hostname to select from the flake's configurations.
    pub hostname: Option<String>,
}

/// The nix-darwin subcommands.
#[derive(Debug, Clone)]
pub enum DarwinSubcommand {
    /// Build and activate a nix-darwin configuration.
    Switch(DarwinRebuildArgs),
    /// Build a nix-darwin configuration.
    Build(DarwinRebuildArgs),
    /// Load a nix-darwin configuration in a repl.
    Repl(DarwinReplArgs),
}

/// Arguments of the nix-darwin command.
#[derive(Debug, Clone)]
pub struct DarwinArgs {
    /// The selected subcommand.
    pub subcommand: DarwinSubcommand,
}

} // verus!
