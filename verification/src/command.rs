use vstd::prelude::*;
use crate::error::{TuggyError, TuggyErrorView};

verus! {

/// The program that every command runs.
pub const DOCKER: &'static str = "docker";

/// The name of the tuggy buildx builder.
pub const BUILDER_NAME: &'static str = "tuggy";

/// The name of the tuggy buildx node.
pub const NODE_NAME: &'static str = "tuggy0";

/// The views of a sequence of strings.
pub open spec fn string_views(v: Seq<String>) -> Seq<Seq<char>> {
    v.map_values(|s: String| s@)
}

/// What a Docker command is run for; it decides how its output is handled
/// and what its failure is reported as.
#[derive(Clone, Copy, Debug, PartialEq, Eq, Structural)]
pub enum Stage {
    /// `docker buildx create`: provision the tuggy builder.
    CreateBuilder,
    /// `docker buildx inspect`: list the builder's platforms.
    InspectBuilder,
    /// `docker buildx build`: build a batch of platforms.
    Build,
    /// `docker buildx imagetools create`: add an alias tag.
    Retag,
    /// `docker buildx imagetools inspect`: describe cached images.
    ListImageCache,
    /// `docker buildx prune`: reset the image cache.
    PruneImageCache,
    /// `docker buildx rm`: delete the tuggy builder.
    RemoveBuilder,
}

/// A `docker` invocation.
#[derive(Debug)]
pub struct DockerCommand {
    /// What the command is run for.
    pub stage: Stage,
    /// The arguments after `docker`.
    pub args: Vec<String>,
    /// Whether the command line is logged before it runs.
    pub log: bool,
    /// Whether the command runs with `BUILDX_NO_DEFAULT_LOAD=true`.
    pub no_default_load: bool,
}

/// The mathematical value of a command.
#[verifier::ext_equal]
pub struct CommandView {
    pub stage: Stage,
    pub args: Seq<Seq<char>>,
    pub log: bool,
    pub no_default_load: bool,
}

impl View for DockerCommand {
    type V = CommandView;

    open spec fn view(&self) -> CommandView {
        CommandView {
            stage: self.stage,
            args: string_views(self.args@),
            log: self.log,
            no_default_load: self.no_default_load,
        }
    }
}

impl DockerCommand {
    /// A copy of the command.
    pub fn duplicate(&self) -> (c: DockerCommand)
        ensures
            c@ == self@,
    {
        let mut args: Vec<String> = Vec::new();
        push_args(&mut args, &self.args);
        assert(string_views(args@) =~= string_views(self.args@));
        DockerCommand { stage: self.stage, args, log: self.log, no_default_load: self.no_default_load }
    }
}

/// The views of a sequence of commands.
pub open spec fn command_views(v: Seq<DockerCommand>) -> Seq<CommandView> {
    v.map_values(|c: DockerCommand| c@)
}

/// The message of the error that a failed command of a stage is reported as.
pub open spec fn failure_message(stage: Stage) -> Seq<char> {
    match stage {
        Stage::CreateBuilder => "unable to provision buildx builder"@,
        Stage::InspectBuilder => "unable to query buildx builder: "@ + BUILDER_NAME@,
        Stage::Build => "unable to build image"@,
        Stage::Retag => "unable to tag image"@,
        Stage::ListImageCache => "unable to list image cache for builder: "@ + BUILDER_NAME@,
        Stage::PruneImageCache => "unable to prune image cache"@,
        Stage::RemoveBuilder => "unable to remove buildx builder"@,
    }
}

/// The error that a failed command of a stage is reported as.
pub open spec fn failure_view(stage: Stage) -> TuggyErrorView {
    TuggyErrorView::IOError(failure_message(stage))
}

impl Stage {
    /// The error that a failed command of this stage is reported as.
    pub fn failure(&self) -> (e: TuggyError)
        ensures
            e is IOError,
            e.message() == failure_message(*self),
            e@ == failure_view(*self),
    {
        let msg = match self {
            Stage::CreateBuilder => String::from_str("unable to provision buildx builder"),
            Stage::InspectBuilder => String::from_str("unable to query buildx builder: ").concat(
                BUILDER_NAME,
            ),
            Stage::Build => String::from_str("unable to build image"),
            Stage::Retag => String::from_str("unable to tag image"),
            Stage::ListImageCache => String::from_str(
                "unable to list image cache for builder: ",
            ).concat(BUILDER_NAME),
            Stage::PruneImageCache => String::from_str("unable to prune image cache"),
            Stage::RemoveBuilder => String::from_str("unable to remove buildx builder"),
        };
        TuggyError::IOError(msg)
    }
}

/// Appends `s` to a list of arguments.
pub fn push_arg(v: &mut Vec<String>, s: &str)
    ensures
        string_views(final(v)@) == string_views(old(v)@).push(s@),
{
    v.push(String::from_str(s));
    assert(string_views(v@) =~= string_views(old(v)@).push(s@));
}

/// Appends copies of `items` to a list of arguments.
pub fn push_args(v: &mut Vec<String>, items: &Vec<String>)
    ensures
        string_views(final(v)@) == string_views(old(v)@) + string_views(items@),
{
    let ghost start = string_views(v@);
    let mut i: usize = 0;
    while i < items.len()
        invariant
            i <= items@.len(),
            string_views(v@) == start + string_views(items@.take(i as int)),
        decreases items@.len() - i,
    {
        push_arg(v, items[i].as_str());
        assert(string_views(items@.take(i + 1)) =~= string_views(items@.take(i as int)).push(
            items@[i as int]@,
        ));
        i = i + 1;
    }
    assert(items@.take(i as int) =~= items@);
}

/// The arguments of the command that adds `alias` as a tag of `tag`.
pub open spec fn retag_args(alias: Seq<char>, tag: Seq<char>) -> Seq<Seq<char>> {
    seq![
        "buildx"@,
        "imagetools"@,
        "--builder"@,
        BUILDER_NAME@,
        "create"@,
        "-t"@,
        alias,
        tag,
    ]
}

/// The command that adds `alias` as a tag of the image `tag`.
pub open spec fn retag_view(alias: Seq<char>, tag: Seq<char>, log: bool) -> CommandView {
    CommandView { stage: Stage::Retag, args: retag_args(alias, tag), log, no_default_load: true }
}

/// The command that adds `alias` as a tag of the image `tag`.
pub fn retag_command(alias: &str, tag: &str, log: bool) -> (c: DockerCommand)
    ensures
        c@ == retag_view(alias@, tag@, log),
{
    let mut args: Vec<String> = Vec::new();
    push_arg(&mut args, "buildx");
    push_arg(&mut args, "imagetools");
    push_arg(&mut args, "--builder");
    push_arg(&mut args, BUILDER_NAME);
    push_arg(&mut args, "create");
    push_arg(&mut args, "-t");
    push_arg(&mut args, alias);
    push_arg(&mut args, tag);
    let c = DockerCommand { stage: Stage::Retag, args, log, no_default_load: true };
    assert(c@.args =~= retag_args(alias@, tag@));
    c
}

/// Whether an optional debug flag asks for logging.
pub open spec fn debug_on(debug: Option<bool>) -> bool {
    debug == Some(true)
}

/// The command that resets the buildx image cache.
pub open spec fn prune_view(debug: Option<bool>) -> CommandView {
    CommandView {
        stage: Stage::PruneImageCache,
        args: seq!["buildx"@, "prune"@, "--force"@],
        log: debug_on(debug),
        no_default_load: false,
    }
}

/// The command that deletes the tuggy buildx builder.
pub open spec fn remove_builder_view(debug: Option<bool>) -> CommandView {
    CommandView {
        stage: Stage::RemoveBuilder,
        args: seq!["buildx"@, "rm"@, BUILDER_NAME@],
        log: debug_on(debug),
        no_default_load: false,
    }
}

/// The command that resets the buildx image cache.
pub fn remove_buildx_image_cache_command(debug: Option<bool>) -> (c: DockerCommand)
    ensures
        c@ == prune_view(debug),
{
    let mut args: Vec<String> = Vec::new();
    push_arg(&mut args, "buildx");
    push_arg(&mut args, "prune");
    push_arg(&mut args, "--force");
    let log = match debug {
        Some(true) => true,
        _ => false,
    };
    let c = DockerCommand { stage: Stage::PruneImageCache, args, log, no_default_load: false };
    assert(c@.args =~= prune_view(debug).args);
    c
}

/// The command that deletes the tuggy buildx builder.
pub fn remove_tuggy_builder_command(debug: Option<bool>) -> (c: DockerCommand)
    ensures
        c@ == remove_builder_view(debug),
{
    let mut args: Vec<String> = Vec::new();
    push_arg(&mut args, "buildx");
    push_arg(&mut args, "rm");
    push_arg(&mut args, BUILDER_NAME);
    let log = match debug {
        Some(true) => true,
        _ => false,
    };
    let c = DockerCommand { stage: Stage::RemoveBuilder, args, log, no_default_load: false };
    assert(c@.args =~= remove_builder_view(debug).args);
    c
}

/// Resets buildx components: the commands to run, in order, as a `Sequence`
/// runs them: reset the image cache, then delete the tuggy builder.
pub fn clean(debug: Option<bool>) -> (cs: Vec<DockerCommand>)
    ensures
        command_views(cs@) == seq![prune_view(debug), remove_builder_view(debug)],
{
    let mut cs: Vec<DockerCommand> = Vec::new();
    cs.push(remove_buildx_image_cache_command(debug));
    cs.push(remove_tuggy_builder_command(debug));
    assert(command_views(cs@) =~= seq![prune_view(debug), remove_builder_view(debug)]);
    cs
}

} // verus!
