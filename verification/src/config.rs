use vstd::prelude::*;
use crate::command::{
    debug_on, prune_view, remove_builder_view, push_arg, push_args, retag_command, retag_view, string_views, command_views,
    CommandView, DockerCommand, Stage, BUILDER_NAME, NODE_NAME,
};
use crate::error::{TuggyError, TuggyErrorView};
use crate::pattern::{
    compile_skip_platform_pattern, default_platforms_skip, default_skip_list,
    generate_skip_platform_pattern, regex_error_text, regex_is_valid,
    regex_matches, skip_pattern_source, Pattern,
};
use crate::platform::{render, views, Platform, PlatformView};
use crate::text::{join, join_strings};

verus! {

/// The optional configuration file, relative to the current working directory.
pub const CONFIGURATION_FILENAME: &'static str = "tuggy.toml";

/// The number of concurrent Docker builds when none is configured.
pub const DEFAULT_JOBS_LIMIT: usize = 4;

/// Docker buildx image operations and their configuration.
#[derive(Debug)]
pub struct Tuggy {
    /// Enables additional logging.
    pub debug: Option<bool>,
    /// Overrides the default buildx driver.
    pub driver: Option<String>,
    /// Regular expressions for platforms to skip.
    pub platforms_skip: Option<Vec<String>>,
    /// Restricts platforms to those listed, compared exactly.
    pub platforms_allow: Option<Vec<String>>,
    /// Loads a built image into the local Docker cache.
    pub load: Option<bool>,
    /// Pushes built images to remote Docker registries.
    pub push: Option<bool>,
    /// A Docker image name.
    pub tag: Option<String>,
    /// Additional tag names for the image.
    pub aliases: Option<Vec<String>>,
    /// The Dockerfile path (default: `Dockerfile`).
    pub dockerfile: Option<String>,
    /// The number of platforms built together (default: 4); zero means no limit.
    pub jobs_limit: Option<usize>,
    /// Extra arguments for `docker buildx build`.
    pub buildx_args: Option<Vec<String>>,
    /// The Docker working directory (default: the current directory).
    pub directory: Option<String>,
}

impl Default for Tuggy {
    fn default() -> (t: Tuggy)
        ensures
            t.debug is None && t.driver is None && t.platforms_skip is None
                && t.platforms_allow is None && t.load is None && t.push is None
                && t.tag is None && t.aliases is None && t.dockerfile is None
                && t.jobs_limit is None && t.buildx_args is None && t.directory is None,
    {
        Tuggy {
            debug: None,
            driver: None,
            platforms_skip: None,
            platforms_allow: None,
            load: None,
            push: None,
            tag: None,
            aliases: None,
            dockerfile: None,
            jobs_limit: None,
            buildx_args: None,
            directory: None,
        }
    }
}

// ---------------------------------------------------------------------------
// Batches
// ---------------------------------------------------------------------------

/// `args` holds `flag` immediately followed by `value`.
pub open spec fn carries(args: Seq<Seq<char>>, flag: Seq<char>, value: Seq<char>) -> bool {
    exists|i: int| 0 <= i && i + 1 < args.len() && #[trigger] args[i] == flag && args[i + 1] == value
}

/// `s` cut into consecutive pieces of `n` items, the last one possibly
/// shorter (the behaviour of `slice::chunks`).
pub open spec fn chunks<A>(s: Seq<A>, n: nat) -> Seq<Seq<A>>
    decreases s.len(),
{
    if s.len() == 0 || n == 0 {
        seq![]
    } else if s.len() <= n {
        seq![s]
    } else {
        seq![s.take(n as int)] + chunks(s.skip(n as int), n)
    }
}

/// Batching loses nothing and reorders nothing: the batches put back together
/// are the items, each batch holds between one and `n` items, and every batch
/// but the last holds exactly `n`.
pub proof fn lemma_chunks_partition<A>(s: Seq<A>, n: nat)
    requires
        n > 0,
    ensures
        chunks(s, n).flatten() == s,
        forall|i: int| 0 <= i < chunks(s, n).len() ==> 0 < #[trigger] chunks(s, n)[i].len() <= n,
        forall|i: int| 0 <= i < chunks(s, n).len() - 1 ==> #[trigger] chunks(s, n)[i].len() == n,
    decreases s.len(),
{
    if s.len() == 0 {
    } else if s.len() <= n {
        let c = chunks(s, n);
        assert(c.drop_first().len() == 0);
        assert(c.drop_first().flatten() =~= Seq::<A>::empty());
        assert(c.flatten() =~= s + Seq::<A>::empty());
    } else {
        let rest = s.skip(n as int);
        lemma_chunks_partition(rest, n);
        let c = chunks(s, n);
        assert(c.drop_first() =~= chunks(rest, n));
        assert(c.flatten() == s.take(n as int) + chunks(rest, n).flatten());
        assert(s.take(n as int) + rest =~= s);
        assert forall|i: int| 0 <= i < c.len() implies 0 < #[trigger] c[i].len() <= n by {
            if i > 0 {
                assert(c[i] == chunks(rest, n)[i - 1]);
            }
        }
        assert forall|i: int| 0 <= i < c.len() - 1 implies #[trigger] c[i].len() == n by {
            if i > 0 {
                assert(c[i] == chunks(rest, n)[i - 1]);
            }
        }
    }
}

/// Every item of every batch is an item of `s`.
pub proof fn lemma_chunks_items<A>(s: Seq<A>, n: nat)
    ensures
        forall|i: int, j: int|
            0 <= i < chunks(s, n).len() && 0 <= j < chunks(s, n)[i].len() ==> s.contains(
                #[trigger] chunks(s, n)[i][j],
            ),
    decreases s.len(),
{
    if s.len() == 0 || n == 0 {
    } else if s.len() <= n {
        assert forall|i: int, j: int|
            0 <= i < chunks(s, n).len() && 0 <= j < chunks(s, n)[i].len() implies s.contains(
            #[trigger] chunks(s, n)[i][j],
        ) by {
            assert(s[j] == chunks(s, n)[i][j]);
        }
    } else {
        let rest = s.skip(n as int);
        lemma_chunks_items(rest, n);
        let c = chunks(s, n);
        assert forall|i: int, j: int| 0 <= i < c.len() && 0 <= j < c[i].len() implies s.contains(
            #[trigger] c[i][j],
        ) by {
            if i == 0 {
                assert(s[j] == c[i][j]);
            } else {
                assert(c[i] == chunks(rest, n)[i - 1]);
                let k = choose|k: int| 0 <= k < rest.len() && rest[k] == c[i][j];
                assert(s[k + n] == rest[k]);
            }
        }
    }
}

// ---------------------------------------------------------------------------
// What a configuration decides
// ---------------------------------------------------------------------------

impl Tuggy {
    /// Commands are logged before they run.
    pub open spec fn logs(&self) -> bool {
        debug_on(self.debug)
    }

    /// The skip list in force: the configured one, or the default.
    pub open spec fn skip_list(&self) -> Seq<Seq<char>> {
        match &self.platforms_skip {
            Some(v) => string_views(v@),
            None => default_skip_list(),
        }
    }

    /// The text of the skip pattern in force.
    pub open spec fn skip_source(&self) -> Seq<char> {
        skip_pattern_source(self.skip_list())
    }

    /// The allow list admits the platform text `s`.
    pub open spec fn allows(&self, s: Seq<char>) -> bool {
        match &self.platforms_allow {
            Some(v) => string_views(v@).contains(s),
            None => true,
        }
    }

    /// A build keeps the platform `p`: the skip pattern does not match its
    /// text and the allow list admits it.
    pub open spec fn keeps(&self, p: PlatformView) -> bool {
        !regex_matches(self.skip_source(), render(p)) && self.allows(render(p))
    }

    /// The platforms of `base` that a build keeps, in order.
    pub open spec fn enabled(&self, base: Seq<PlatformView>) -> Seq<PlatformView> {
        base.filter(|p: PlatformView| self.keeps(p))
    }

    /// The texts of the platforms of `base` that a build keeps, in order.
    pub open spec fn kept_renders(&self, base: Seq<PlatformView>) -> Seq<Seq<char>> {
        self.enabled(base).map_values(|p: PlatformView| render(p))
    }

    /// The number of platforms built together.
    pub open spec fn batch_size(&self) -> nat {
        match self.jobs_limit {
            Some(n) => n as nat,
            None => DEFAULT_JOBS_LIMIT as nat,
        }
    }

    /// The platform groups that a build builds in its batched phase.
    pub open spec fn groups(&self, renders: Seq<Seq<char>>) -> Seq<Seq<Seq<char>>> {
        if self.batch_size() == 0 {
            seq![renders]
        } else {
            chunks(renders, self.batch_size())
        }
    }

    /// The Docker working directory.
    pub open spec fn working_directory(&self) -> Seq<char> {
        match &self.directory {
            Some(d) => d@,
            None => "."@,
        }
    }

    /// The extra `docker buildx build` arguments.
    pub open spec fn extra_args(&self) -> Seq<Seq<char>> {
        match &self.buildx_args {
            Some(v) => string_views(v@),
            None => seq![],
        }
    }

    /// The configured aliases.
    pub open spec fn alias_list(&self) -> Seq<Seq<char>> {
        match &self.aliases {
            Some(v) => string_views(v@),
            None => seq![],
        }
    }

    /// The build pushes its images.
    pub open spec fn pushes(&self) -> bool {
        self.push == Some(true)
    }

    /// The arguments of `docker buildx build` for the image `tag` and the
    /// platform texts `group`; `push` says whether this build pushes.
    pub open spec fn build_args(&self, tag: Seq<char>, group: Seq<Seq<char>>, push: bool) -> Seq<Seq<char>> {
        seq!["buildx"@, "build"@, "--builder"@, BUILDER_NAME@] + (if self.load == Some(true) {
            seq!["--load"@]
        } else {
            seq!["--platform"@, join(group, ","@)]
        }) + (if push {
            seq!["--push"@]
        } else {
            seq![]
        }) + seq!["-t"@, tag] + (match &self.dockerfile {
            Some(d) => seq!["-f"@, d@],
            None => seq![],
        }) + self.extra_args() + seq![self.working_directory()]
    }

    /// The commands of one batch: build the group (pushing when `push`), then,
    /// when `retag`, add every alias.
    pub open spec fn batch_commands(
        &self,
        tag: Seq<char>,
        group: Seq<Seq<char>>,
        push: bool,
        retag: bool,
    ) -> Seq<CommandView> {
        seq![
            CommandView {
                stage: Stage::Build,
                args: self.build_args(tag, group, push),
                log: self.logs(),
                no_default_load: true,
            },
        ] + (if retag {
            self.alias_list().map_values(|a: Seq<char>| retag_view(a, tag, self.logs()))
        } else {
            seq![]
        })
    }

    /// The commands of the limited batches `groups`, one after the other.
    /// They never push; they add the aliases only when the build does not push.
    pub open spec fn batches(&self, tag: Seq<char>, groups: Seq<Seq<Seq<char>>>) -> Seq<CommandView> {
        groups.map_values(|g: Seq<Seq<char>>| self.batch_commands(tag, g, false, !self.pushes())).flatten()
    }

    /// All commands of a build of the platform texts `renders`. Without a
    /// batch limit: one batch of all, pushing when the build pushes. With a
    /// limit: one non-pushing batch per group, then, when the build pushes,
    /// one batch of all that pushes and adds the aliases (pushes are not
    /// batched).
    pub open spec fn build_plan(&self, tag: Seq<char>, renders: Seq<Seq<char>>) -> Seq<CommandView> {
        if self.batch_size() == 0 {
            self.batch_commands(tag, renders, self.pushes(), true)
        } else {
            self.batches(tag, chunks(renders, self.batch_size())) + (if self.pushes() {
                self.batch_commands(tag, renders, true, true)
            } else {
                seq![]
            })
        }
    }

    /// The message of the error for a build that keeps no platform.
    pub open spec fn no_platform_message() -> Seq<char> {
        "all platforms unavailable, skipped, or denied"@
    }

    /// The message of the error for a build that both loads and pushes.
    pub open spec fn load_push_message() -> Seq<char> {
        "load, push are mutually exclusive operations"@
    }

    /// What a build of the image `tag` from the available platforms `base`
    /// does: the commands to run in order, or the message of its error.
    pub open spec fn build_result(&self, tag: Seq<char>, base: Seq<PlatformView>) -> Result<
        Seq<CommandView>,
        Seq<char>,
    > {
        let en = self.enabled(base);
        if en.len() == 0 {
            Err(Self::no_platform_message())
        } else if self.load == Some(true) && self.push == Some(true) {
            Err(Self::load_push_message())
        } else {
            Ok(self.build_plan(tag, self.kept_renders(base)))
        }
    }
}

// ---------------------------------------------------------------------------
// Commands
// ---------------------------------------------------------------------------

impl Tuggy {
    /// The arguments that provision the tuggy buildx builder.
    pub open spec fn create_builder_args(&self) -> Seq<Seq<char>> {
        seq![
            "buildx"@,
            "create"@,
            "--bootstrap"@,
            "--name"@,
            BUILDER_NAME@,
            "--node"@,
            NODE_NAME@,
        ] + match &self.driver {
            Some(d) => seq!["--driver"@, d@],
            None => seq![],
        }
    }

    /// The command that provisions the tuggy buildx builder.
    pub open spec fn create_builder_view(&self) -> CommandView {
        CommandView {
            stage: Stage::CreateBuilder,
            args: self.create_builder_args(),
            log: self.logs(),
            no_default_load: false,
        }
    }

    /// The command that lists the platforms of the tuggy buildx builder.
    pub open spec fn inspect_builder_view(&self) -> CommandView {
        CommandView {
            stage: Stage::InspectBuilder,
            args: seq!["buildx"@, "inspect"@, BUILDER_NAME@],
            log: self.logs(),
            no_default_load: false,
        }
    }

    /// The command that provisions the tuggy buildx builder.
    pub fn ensure_buildx_builder_command(&self) -> (c: DockerCommand)
        ensures
            c@ == self.create_builder_view(),
    {
        let mut args: Vec<String> = Vec::new();
        push_arg(&mut args, "buildx");
        push_arg(&mut args, "create");
        push_arg(&mut args, "--bootstrap");
        push_arg(&mut args, "--name");
        push_arg(&mut args, BUILDER_NAME);
        push_arg(&mut args, "--node");
        push_arg(&mut args, NODE_NAME);
        if let Some(driver) = &self.driver {
            push_arg(&mut args, "--driver");
            push_arg(&mut args, driver.as_str());
        }
        let log = self.debug_enabled();
        let c = DockerCommand { stage: Stage::CreateBuilder, args, log, no_default_load: false };
        assert(c@.args =~= self.create_builder_args());
        c
    }

    /// The command that lists the platforms of the tuggy buildx builder.
    pub fn inspect_builder_command(&self) -> (c: DockerCommand)
        ensures
            c@ == self.inspect_builder_view(),
    {
        let mut args: Vec<String> = Vec::new();
        push_arg(&mut args, "buildx");
        push_arg(&mut args, "inspect");
        push_arg(&mut args, BUILDER_NAME);
        let log = self.debug_enabled();
        let c = DockerCommand { stage: Stage::InspectBuilder, args, log, no_default_load: false };
        assert(c@.args =~= seq!["buildx"@, "inspect"@, BUILDER_NAME@]);
        c
    }

    /// The command that describes the buildx images of `tag`.
    pub fn list_image_cache_command(&self, tag: &str) -> (c: DockerCommand)
        ensures
            c@ == (CommandView {
                stage: Stage::ListImageCache,
                args: seq![
                    "buildx"@,
                    "imagetools"@,
                    "inspect"@,
                    "--builder"@,
                    BUILDER_NAME@,
                    tag@,
                ],
                log: self.logs(),
                no_default_load: false,
            }),
    {
        let mut args: Vec<String> = Vec::new();
        push_arg(&mut args, "buildx");
        push_arg(&mut args, "imagetools");
        push_arg(&mut args, "inspect");
        push_arg(&mut args, "--builder");
        push_arg(&mut args, BUILDER_NAME);
        push_arg(&mut args, tag);
        let log = self.debug_enabled();
        let c = DockerCommand { stage: Stage::ListImageCache, args, log, no_default_load: false };
        assert(c@.args =~= seq![
            "buildx"@,
            "imagetools"@,
            "inspect"@,
            "--builder"@,
            BUILDER_NAME@,
            tag@,
        ]);
        c
    }

    /// Whether commands are logged.
    pub fn debug_enabled(&self) -> (b: bool)
        ensures
            b == self.logs(),
    {
        match self.debug {
            Some(true) => true,
            _ => false,
        }
    }
}


// ---------------------------------------------------------------------------
// Planning a build
// ---------------------------------------------------------------------------

impl Tuggy {
    /// The skip pattern in force: the configured skip list, or the default one.
    pub fn skip_pattern(&self) -> (r: Result<Pattern, regex::Error>)
        ensures
            r is Ok <==> regex_is_valid(self.skip_source()),
            r is Ok ==> r->Ok_0@ == self.skip_source(),
    {
        let list = self.skip_strs();
        generate_skip_platform_pattern(list.as_slice())
    }

    /// Compiles the skip pattern in force, reporting a pattern that does not
    /// compile as a `TuggyError::RegexParseError` with the regex crate's
    /// message.
    pub fn compiled_skip_pattern(&self) -> (r: Result<Pattern, TuggyError>)
        ensures
            r is Ok <==> regex_is_valid(self.skip_source()),
            r is Ok ==> r->Ok_0@ == self.skip_source(),
            r is Err ==> r->Err_0@ == TuggyErrorView::RegexParseError(regex_error_text(self.skip_source())),
    {
        let list = self.skip_strs();
        compile_skip_platform_pattern(list.as_slice())
    }

    /// The skip list in force, as borrowed text.
    fn skip_strs(&self) -> (list: Vec<&str>)
        ensures
            list@.map_values(|s: &str| s@) == self.skip_list(),
    {
        match &self.platforms_skip {
            Some(v) => {
                let mut list: Vec<&str> = Vec::new();
                let mut i: usize = 0;
                while i < v.len()
                    invariant
                        i <= v@.len(),
                        list@.map_values(|s: &str| s@) == string_views(v@.take(i as int)),
                    decreases v@.len() - i,
                {
                    let ghost before = list@.map_values(|s: &str| s@);
                    list.push(v[i].as_str());
                    assert(list@.map_values(|s: &str| s@) =~= before.push(v@[i as int]@));
                    assert(string_views(v@.take(i + 1)) =~= string_views(v@.take(i as int)).push(
                        v@[i as int]@,
                    ));
                    i = i + 1;
                }
                assert(v@.take(i as int) =~= v@);
                list
            },
            None => default_platforms_skip(),
        }
    }

    /// Whether the allow list admits the platform text `s`.
    pub fn allows_platform(&self, s: &String) -> (b: bool)
        ensures
            b == self.allows(s@),
    {
        match &self.platforms_allow {
            None => true,
            Some(v) => {
                let mut i: usize = 0;
                while i < v.len()
                    invariant
                        self.platforms_allow == Some(*v),
                        i <= v@.len(),
                        forall|k: int| 0 <= k < i ==> v@[k]@ != s@,
                    decreases v@.len() - i,
                {
                    if v[i] == *s {
                        proof {
                            assert(string_views(v@)[i as int] == s@);
                            assert(string_views(v@).contains(s@));
                        }
                        return true;
                    }
                    i = i + 1;
                }
                proof {
                    if string_views(v@).contains(s@) {
                        let k = choose|k: int| 0 <= k < string_views(v@).len() && string_views(v@)[k] == s@;
                        assert(v@[k]@ == s@);
                    }
                }
                false
            },
        }
    }

    /// The texts of the platforms of `base` that a build keeps, in order.
    pub fn enabled_platforms(&self, base: &Vec<Platform>, skip: &Pattern) -> (r: Vec<String>)
        requires
            skip@ == self.skip_source(),
        ensures
            string_views(r@) == self.kept_renders(views(base@)),
    {
        let ghost bv = views(base@);
        let mut r: Vec<String> = Vec::new();
        let mut i: usize = 0;
        proof {
            reveal(Seq::filter);
            assert(bv.take(0).filter(|p: PlatformView| self.keeps(p)) =~= seq![]);
        }
        while i < base.len()
            invariant
                i <= base@.len(),
                bv == views(base@),
                skip@ == self.skip_source(),
                string_views(r@) == self.enabled(bv.take(i as int)).map_values(|p: PlatformView| render(p)),
            decreases base@.len() - i,
        {
            let text = base[i].to_string();
            let keep = !skip.is_match(text.as_str()) && self.allows_platform(&text);
            let ghost before = string_views(r@);
            proof {
                reveal(Seq::filter);
                assert(bv.take(i + 1).drop_last() =~= bv.take(i as int));
                assert(bv.take(i + 1).last() == base@[i as int]@);
            }
            if keep {
                r.push(text);
                assert(string_views(r@) =~= before.push(text@));
                assert(self.enabled(bv.take(i + 1)) == self.enabled(bv.take(i as int)).push(base@[i as int]@));
                assert(self.enabled(bv.take(i + 1)).map_values(|p: PlatformView| render(p))
                    =~= self.enabled(bv.take(i as int)).map_values(|p: PlatformView| render(p)).push(text@));
            } else {
                assert(self.enabled(bv.take(i + 1)) == self.enabled(bv.take(i as int)));
            }
            i = i + 1;
        }
        assert(bv.take(i as int) =~= bv);
        r
    }

    /// The log line for a platform that a build leaves out: skipped when the
    /// skip pattern matches its text, denied when the allow list does not
    /// admit it; none for a kept platform.
    pub open spec fn note_for(&self, p: PlatformView) -> Seq<Seq<char>> {
        if regex_matches(self.skip_source(), render(p)) {
            seq!["debug: skip platform: "@ + render(p)]
        } else if !self.allows(render(p)) {
            seq!["debug: deny platform: "@ + render(p)]
        } else {
            seq![]
        }
    }

    /// The log lines of the platforms of `base` that a build leaves out, in
    /// order.
    pub open spec fn selection_notes(&self, base: Seq<PlatformView>) -> Seq<Seq<char>>
        decreases base.len(),
    {
        if base.len() == 0 {
            seq![]
        } else {
            self.selection_notes(base.drop_last()) + self.note_for(base.last())
        }
    }

    /// The log lines that say which platforms of `base` a build skips or
    /// denies, and why.
    pub fn selection_notes_of(&self, base: &Vec<Platform>, skip: &Pattern) -> (r: Vec<String>)
        requires
            skip@ == self.skip_source(),
        ensures
            string_views(r@) == self.selection_notes(views(base@)),
    {
        let ghost bv = views(base@);
        let mut r: Vec<String> = Vec::new();
        let mut i: usize = 0;
        assert(bv.take(0).len() == 0);
        assert(string_views(r@) =~= seq![]);
        while i < base.len()
            invariant
                i <= base@.len(),
                bv == views(base@),
                skip@ == self.skip_source(),
                string_views(r@) == self.selection_notes(bv.take(i as int)),
            decreases base@.len() - i,
        {
            let text = base[i].to_string();
            let ghost before = string_views(r@);
            proof {
                assert(bv.take(i + 1).drop_last() =~= bv.take(i as int));
                assert(bv.take(i + 1).last() == base@[i as int]@);
            }
            if skip.is_match(text.as_str()) {
                r.push(String::from_str("debug: skip platform: ").concat(text.as_str()));
                assert(string_views(r@) =~= before + self.note_for(base@[i as int]@));
            } else if !self.allows_platform(&text) {
                r.push(String::from_str("debug: deny platform: ").concat(text.as_str()));
                assert(string_views(r@) =~= before + self.note_for(base@[i as int]@));
            } else {
                assert(string_views(r@) =~= before + self.note_for(base@[i as int]@));
            }
            i = i + 1;
        }
        assert(bv.take(i as int) =~= bv);
        r
    }

    /// Appends the commands of the batch `renders[from..to]` to `cmds`.
    #[verifier::rlimit(40)]
    fn push_batch(
        &self,
        cmds: &mut Vec<DockerCommand>,
        tag: &str,
        renders: &Vec<String>,
        from: usize,
        to: usize,
        push: bool,
        retag: bool,
    )
        requires
            from <= to <= renders@.len(),
        ensures
            command_views(final(cmds)@) == command_views(old(cmds)@) + self.batch_commands(
                tag@,
                string_views(renders@).subrange(from as int, to as int),
                push,
                retag,
            ),
    {
        let ghost group = string_views(renders@).subrange(from as int, to as int);
        assert(renders@.subrange(from as int, to as int).map_values(|s: String| s@) =~= group);
        let log = self.debug_enabled();
        let mut args: Vec<String> = Vec::new();
        push_arg(&mut args, "buildx");
        push_arg(&mut args, "build");
        push_arg(&mut args, "--builder");
        push_arg(&mut args, BUILDER_NAME);
        let ghost a0 = string_views(args@);
        let load = match self.load {
            Some(true) => true,
            _ => false,
        };
        if load {
            push_arg(&mut args, "--load");
        } else {
            push_arg(&mut args, "--platform");
            let joined = join_strings(renders, from, to, ",");
            push_arg(&mut args, joined.as_str());
        }
        let ghost a1 = string_views(args@);
        assert(a1 =~= a0 + (if self.load == Some(true) {
            seq!["--load"@]
        } else {
            seq!["--platform"@, join(group, ","@)]
        }));
        if push {
            push_arg(&mut args, "--push");
        }
        let ghost a2 = string_views(args@);
        assert(a2 =~= a1 + (if push {
            seq!["--push"@]
        } else {
            seq![]
        }));
        push_arg(&mut args, "-t");
        push_arg(&mut args, tag);
        let ghost a3 = string_views(args@);
        assert(a3 =~= a2 + seq!["-t"@, tag@]);
        if let Some(dockerfile) = &self.dockerfile {
            push_arg(&mut args, "-f");
            push_arg(&mut args, dockerfile.as_str());
        }
        let ghost a4 = string_views(args@);
        assert(a4 =~= a3 + (match &self.dockerfile {
            Some(d) => seq!["-f"@, d@],
            None => seq![],
        }));
        if let Some(extra) = &self.buildx_args {
            push_args(&mut args, extra);
        }
        let ghost a5 = string_views(args@);
        assert(a5 =~= a4 + self.extra_args());
        match &self.directory {
            Some(d) => push_arg(&mut args, d.as_str()),
            None => push_arg(&mut args, "."),
        }
        assert(string_views(args@) =~= self.build_args(tag@, group, push));
        let ghost start = command_views(cmds@);
        cmds.push(DockerCommand { stage: Stage::Build, args, log, no_default_load: true });
        let ghost first = seq![
            CommandView {
                stage: Stage::Build,
                args: self.build_args(tag@, group, push),
                log: self.logs(),
                no_default_load: true,
            },
        ];
        assert(command_views(cmds@) =~= start + first);
        let ghost al = if retag {
            self.alias_list()
        } else {
            seq![]
        };
        if !retag {
            assert(al.map_values(|a: Seq<char>| retag_view(a, tag@, self.logs())) =~= seq![]);
        } else if let Some(aliases) = &self.aliases {
            let mut i: usize = 0;
            while i < aliases.len()
                invariant
                    i <= aliases@.len(),
                    al == string_views(aliases@),
                    log == self.logs(),
                    command_views(cmds@) == start + first + al.take(i as int).map_values(
                        |a: Seq<char>| retag_view(a, tag@, self.logs()),
                    ),
                decreases aliases@.len() - i,
            {
                let ghost before = command_views(cmds@);
                cmds.push(retag_command(aliases[i].as_str(), tag, log));
                assert(command_views(cmds@) =~= before.push(retag_view(aliases@[i as int]@, tag@, log)));
                assert(al.take(i + 1).map_values(|a: Seq<char>| retag_view(a, tag@, self.logs()))
                    =~= al.take(i as int).map_values(|a: Seq<char>| retag_view(a, tag@, self.logs())).push(
                    retag_view(aliases@[i as int]@, tag@, log),
                ));
                i = i + 1;
            }
            assert(al.take(i as int) =~= al);
        } else {
            assert(al.map_values(|a: Seq<char>| retag_view(a, tag@, self.logs())) =~= seq![]);
        }
        assert(start + first + al.map_values(|a: Seq<char>| retag_view(a, tag@, self.logs()))
            =~= start + self.batch_commands(tag@, group, push, retag));
    }

    /// One batch step of a build: the groups of `r` from position `i` on are
    /// the group `r[i..end]` followed by the groups from `end` on.
    proof fn lemma_batches_step(&self, tag: Seq<char>, r: Seq<Seq<char>>, i: int, end: int)
        requires
            self.batch_size() > 0,
            0 <= i < end <= r.len(),
            end == (if r.len() - i <= self.batch_size() { r.len() as int } else { i + self.batch_size() }),
        ensures
            self.batches(tag, chunks(r.skip(i), self.batch_size())) == self.batch_commands(
                tag,
                r.subrange(i, end),
                false,
                !self.pushes(),
            ) + self.batches(tag, chunks(r.skip(end), self.batch_size())),
    {
        let n = self.batch_size();
        let s = r.skip(i);
        let g = r.subrange(i, end);
        let rest = chunks(r.skip(end), n);
        if s.len() <= n {
            assert(g =~= s);
            assert(r.skip(end).len() == 0);
            assert(rest =~= seq![]);
            assert(chunks(s, n) =~= seq![g] + rest);
        } else {
            assert(g =~= s.take(n as int));
            assert(s.skip(n as int) =~= r.skip(end));
            assert(chunks(s, n) =~= seq![g] + rest);
        }
        let f = |x: Seq<Seq<char>>| self.batch_commands(tag, x, false, !self.pushes());
        let m = (seq![g] + rest).map_values(f);
        assert(m.first() == self.batch_commands(tag, g, false, !self.pushes()));
        assert(m.drop_first() =~= rest.map_values(f));
    }

    /// Plans a build of the image `tag` from the available platforms `base`:
    /// the Docker commands to run, in order, as a `Sequence` runs them.
    /// `skip` is the skip pattern in force.
    pub fn build(&self, tag: &str, base: &Vec<Platform>, skip: &Pattern) -> (r: Result<Vec<DockerCommand>, TuggyError>)
        requires
            skip@ == self.skip_source(),
        ensures
            match self.build_result(tag@, views(base@)) {
                Ok(cs) => r is Ok && command_views(r->Ok_0@) == cs,
                Err(m) => r is Err && r->Err_0@ == TuggyErrorView::IOError(m),
            },
    {
        let renders = self.enabled_platforms(base, skip);
        let ghost rv = string_views(renders@);
        let len = renders.len();
        let ghost en = self.enabled(views(base@));
        assert(en.map_values(|p: PlatformView| render(p)).len() == en.len());
        assert(rv.len() == len);
        if len == 0 {
            return Err(TuggyError::IOError(String::from_str("all platforms unavailable, skipped, or denied")));
        }
        if let (Some(true), Some(true)) = (self.load, self.push) {
            return Err(TuggyError::IOError(String::from_str("load, push are mutually exclusive operations")));
        }
        let n = match self.jobs_limit {
            Some(n) => n,
            None => DEFAULT_JOBS_LIMIT,
        };
        let mut cmds: Vec<DockerCommand> = Vec::new();
        assert(rv.subrange(0, len as int) =~= rv);
        let pushes = match self.push {
            Some(true) => true,
            _ => false,
        };
        if n == 0 {
            self.push_batch(&mut cmds, tag, &renders, 0, len, pushes, true);
            assert(command_views(cmds@) =~= self.build_plan(tag@, rv));
        } else {
            let mut i: usize = 0;
            assert(rv.skip(0) =~= rv);
            assert(command_views(cmds@) =~= seq![]);
            while i < len
                invariant
                    n == self.batch_size(),
                    n > 0,
                    pushes == self.pushes(),
                    len == renders@.len(),
                    rv == string_views(renders@),
                    i <= len,
                    command_views(cmds@) + self.batches(tag@, chunks(rv.skip(i as int), n as nat))
                        == self.batches(tag@, chunks(rv, n as nat)),
                decreases len - i,
            {
                let end = if len - i <= n {
                    len
                } else {
                    i + n
                };
                let ghost before = command_views(cmds@);
                self.push_batch(&mut cmds, tag, &renders, i, end, false, !pushes);
                proof {
                    self.lemma_batches_step(tag@, rv, i as int, end as int);
                    assert(command_views(cmds@) + self.batches(tag@, chunks(rv.skip(end as int), n as nat))
                        =~= before + self.batches(tag@, chunks(rv.skip(i as int), n as nat)));
                }
                i = end;
            }
            proof {
                assert(rv.skip(i as int).len() == 0);
                let m = chunks(rv.skip(i as int), n as nat).map_values(
                    |g: Seq<Seq<char>>| self.batch_commands(tag@, g, false, !self.pushes()),
                );
                assert(m.len() == 0);
                assert(command_views(cmds@) =~= self.batches(tag@, chunks(rv, n as nat)));
            }
            if pushes {
                self.push_batch(&mut cmds, tag, &renders, 0, len, true, true);
            }
            assert(command_views(cmds@) =~= self.build_plan(tag@, rv));
        }
        Ok(cmds)
    }
}


// ---------------------------------------------------------------------------
// Laws of a build
// ---------------------------------------------------------------------------

/// The commands `cs` with logging switched off.
pub open spec fn unlogged(cs: Seq<CommandView>) -> Seq<CommandView> {
    cs.map_values(|c: CommandView| CommandView { log: false, ..c })
}

proof fn lemma_unlogged_add(a: Seq<CommandView>, b: Seq<CommandView>)
    ensures
        unlogged(a + b) == unlogged(a) + unlogged(b),
{
    assert(unlogged(a + b) =~= unlogged(a) + unlogged(b));
}

/// `debug` only decides logging for `clean` too: it plans the same commands
/// whatever its value.
pub proof fn lemma_clean_debug_only_logs(d: Option<bool>, e: Option<bool>)
    ensures
        unlogged(seq![prune_view(d), remove_builder_view(d)]) == unlogged(
            seq![prune_view(e), remove_builder_view(e)],
        ),
{
    assert(unlogged(seq![prune_view(d), remove_builder_view(d)]) =~= unlogged(
        seq![prune_view(e), remove_builder_view(e)],
    ));
}

impl Tuggy {
    /// The groups of a build cover the kept platforms exactly once and in
    /// order, none is empty, and with a batch limit none is larger than it.
    pub proof fn lemma_groups_cover(&self, renders: Seq<Seq<char>>)
        requires
            renders.len() > 0,
        ensures
            self.groups(renders).flatten() == renders,
            forall|i: int| 0 <= i < self.groups(renders).len() ==> #[trigger] self.groups(renders)[i].len() > 0,
            self.batch_size() > 0 ==> forall|i: int| 0 <= i < self.groups(renders).len()
                ==> #[trigger] self.groups(renders)[i].len() <= self.batch_size(),
    {
        if self.batch_size() == 0 {
            let g = self.groups(renders);
            assert(g.drop_first().len() == 0);
            assert(g.drop_first().flatten() =~= Seq::<Seq<char>>::empty());
            assert(g.flatten() =~= renders);
        } else {
            lemma_chunks_partition(renders, self.batch_size());
        }
    }

    /// `x` is the text of a platform of `base` that a build keeps.
    pub open spec fn is_kept_text(&self, base: Seq<PlatformView>, x: Seq<char>) -> bool {
        exists|p: PlatformView| #[trigger] base.contains(p) && self.keeps(p) && render(p) == x
    }

    /// A build builds only platforms that it keeps: every platform text of
    /// every group is the text of an available platform that the skip
    /// pattern does not match and the allow list admits.
    pub proof fn lemma_groups_only_kept(&self, base: Seq<PlatformView>)
        ensures
            forall|i: int, j: int|
                0 <= i < self.groups(self.kept_renders(base)).len()
                && 0 <= j < self.groups(self.kept_renders(base))[i].len()
                ==> self.is_kept_text(base, #[trigger] self.groups(self.kept_renders(base))[i][j]),
    {
        let en = self.enabled(base);
        let rs = self.kept_renders(base);
        let gs = self.groups(rs);
        broadcast use vstd::seq_lib::group_filter_ensures;
        lemma_chunks_items(rs, self.batch_size());
        assert forall|i: int, j: int| 0 <= i < gs.len() && 0 <= j < gs[i].len() implies self.is_kept_text(
            base,
            #[trigger] gs[i][j],
        ) by {
            let x = gs[i][j];
            if self.batch_size() == 0 {
                assert(rs.contains(x)) by {
                    assert(rs[j] == x);
                }
            }
            assert(rs.contains(x));
            let k = choose|k: int| 0 <= k < rs.len() && rs[k] == x;
            let p = en[k];
            assert(en.contains(p));
            base.lemma_filter_contains_rev(|p: PlatformView| self.keeps(p), p);
            assert(base.contains(p));
            assert(self.keeps(p));
            assert(render(p) == gs[i][j]);
        }
    }

    /// Every build command of `batches` builds without pushing.
    pub proof fn lemma_batches_never_push(&self, tag: Seq<char>, gs: Seq<Seq<Seq<char>>>)
        ensures
            forall|k: int| 0 <= k < self.batches(tag, gs).len() && #[trigger] self.batches(tag, gs)[k].stage == Stage::Build
                ==> exists|g: Seq<Seq<char>>| self.batches(tag, gs)[k].args == #[trigger] self.build_args(tag, g, false),
        decreases gs.len(),
    {
        if gs.len() > 0 {
            let f = |x: Seq<Seq<char>>| self.batch_commands(tag, x, false, !self.pushes());
            let m = gs.map_values(f);
            assert(m.drop_first() =~= gs.drop_first().map_values(f));
            self.lemma_batches_never_push(tag, gs.drop_first());
            let first = m[0];
            let rest = self.batches(tag, gs.drop_first());
            assert(self.batches(tag, gs) == first + rest);
            assert forall|k: int| 0 <= k < self.batches(tag, gs).len() && #[trigger] self.batches(tag, gs)[k].stage
                == Stage::Build implies exists|g: Seq<Seq<char>>| self.batches(tag, gs)[k].args == #[trigger] self.build_args(
                tag,
                g,
                false,
            ) by {
                if k < first.len() {
                    if k == 0 {
                        assert(self.batches(tag, gs)[k].args == self.build_args(tag, gs[0], false));
                    } else {
                        assert(self.batches(tag, gs)[k] == first[k]);
                        assert(first[k].stage == Stage::Retag);
                    }
                } else {
                    assert(self.batches(tag, gs)[k] == rest[k - first.len()]);
                }
            }
        }
    }

    /// Pushes are not batched: every build command of a build's plan either
    /// does not push or builds all the platforms that the build keeps.
    pub proof fn lemma_push_not_batched(&self, tag: Seq<char>, renders: Seq<Seq<char>>)
        ensures
            forall|k: int| 0 <= k < self.build_plan(tag, renders).len() && #[trigger] self.build_plan(tag, renders)[k].stage == Stage::Build
                ==> (exists|g: Seq<Seq<char>>| self.build_plan(tag, renders)[k].args == #[trigger] self.build_args(tag, g, false))
                    || self.build_plan(tag, renders)[k].args == self.build_args(tag, renders, true),
    {
        let plan = self.build_plan(tag, renders);
        if self.batch_size() == 0 {
            assert forall|k: int| 0 <= k < plan.len() && #[trigger] plan[k].stage == Stage::Build implies
                (exists|g: Seq<Seq<char>>| plan[k].args == #[trigger] self.build_args(tag, g, false))
                || plan[k].args == self.build_args(tag, renders, true) by {
                if k == 0 {
                    if !self.pushes() {
                        assert(plan[k].args == self.build_args(tag, renders, false));
                    }
                }
            }
        } else {
            let b = self.batches(tag, chunks(renders, self.batch_size()));
            self.lemma_batches_never_push(tag, chunks(renders, self.batch_size()));
            assert forall|k: int| 0 <= k < plan.len() && #[trigger] plan[k].stage == Stage::Build implies
                (exists|g: Seq<Seq<char>>| plan[k].args == #[trigger] self.build_args(tag, g, false))
                || plan[k].args == self.build_args(tag, renders, true) by {
                if k < b.len() {
                    assert(plan[k] == b[k]);
                } else {
                    let last = self.batch_commands(tag, renders, true, true);
                    assert(plan[k] == last[k - b.len()]);
                }
            }
        }
    }

    /// `self` and `other` differ at most in `debug`.
    pub open spec fn same_but_debug(&self, other: &Tuggy) -> bool {
        &&& self.driver == other.driver
        &&& self.platforms_skip == other.platforms_skip
        &&& self.platforms_allow == other.platforms_allow
        &&& self.load == other.load
        &&& self.push == other.push
        &&& self.tag == other.tag
        &&& self.aliases == other.aliases
        &&& self.dockerfile == other.dockerfile
        &&& self.jobs_limit == other.jobs_limit
        &&& self.buildx_args == other.buildx_args
        &&& self.directory == other.directory
    }

    proof fn lemma_batches_unlogged(&self, other: &Tuggy, tag: Seq<char>, gs: Seq<Seq<Seq<char>>>)
        requires
            self.same_but_debug(other),
        ensures
            unlogged(self.batches(tag, gs)) == unlogged(other.batches(tag, gs)),
        decreases gs.len(),
    {
        if gs.len() > 0 {
            let f = |x: Seq<Seq<char>>| self.batch_commands(tag, x, false, !self.pushes());
            let g = |x: Seq<Seq<char>>| other.batch_commands(tag, x, false, !other.pushes());
            assert(gs.map_values(f).drop_first() =~= gs.drop_first().map_values(f));
            assert(gs.map_values(g).drop_first() =~= gs.drop_first().map_values(g));
            self.lemma_batches_unlogged(other, tag, gs.drop_first());
            self.lemma_batch_unlogged(other, tag, gs[0], false, !self.pushes());
            lemma_unlogged_add(f(gs[0]), self.batches(tag, gs.drop_first()));
            lemma_unlogged_add(g(gs[0]), other.batches(tag, gs.drop_first()));
        }
    }

    proof fn lemma_batch_unlogged(&self, other: &Tuggy, tag: Seq<char>, group: Seq<Seq<char>>, push: bool, retag: bool)
        requires
            self.same_but_debug(other),
        ensures
            unlogged(self.batch_commands(tag, group, push, retag)) == unlogged(other.batch_commands(tag, group, push, retag)),
    {
        assert(self.build_args(tag, group, push) == other.build_args(tag, group, push));
        assert(unlogged(self.batch_commands(tag, group, push, retag)) =~= unlogged(
            other.batch_commands(tag, group, push, retag),
        ));
    }

    /// `debug` only decides logging: two configurations that differ in it
    /// alone plan the same commands with the same arguments, in the same
    /// order, and fail with the same errors.
    pub proof fn lemma_debug_only_logs(&self, other: &Tuggy, tag: Seq<char>, base: Seq<PlatformView>)
        requires
            self.same_but_debug(other),
        ensures
            match (self.build_result(tag, base), other.build_result(tag, base)) {
                (Ok(a), Ok(b)) => unlogged(a) == unlogged(b),
                (Err(m), Err(n)) => m == n,
                _ => false,
            },
    {
        assert((|p: PlatformView| self.keeps(p)) =~= (|p: PlatformView| other.keeps(p)));
        assert(self.enabled(base) == other.enabled(base));
        assert(self.kept_renders(base) == other.kept_renders(base));
        let rs = self.kept_renders(base);
        if self.batch_size() == 0 {
            self.lemma_batch_unlogged(other, tag, rs, self.pushes(), true);
        } else {
            let gs = chunks(rs, self.batch_size());
            self.lemma_batches_unlogged(other, tag, gs);
            self.lemma_batch_unlogged(other, tag, rs, true, true);
            let tail_a = if self.pushes() {
                self.batch_commands(tag, rs, true, true)
            } else {
                seq![]
            };
            let tail_b = if other.pushes() {
                other.batch_commands(tag, rs, true, true)
            } else {
                seq![]
            };
            assert(unlogged(tail_a) =~= unlogged(tail_b));
            lemma_unlogged_add(self.batches(tag, gs), tail_a);
            lemma_unlogged_add(other.batches(tag, gs), tail_b);
        }
    }

    /// Loading and pushing exclude each other: a build that keeps a platform
    /// and is asked to do both is refused before any command.
    pub proof fn lemma_load_push_refused(&self, tag: Seq<char>, base: Seq<PlatformView>)
        requires
            self.load == Some(true),
            self.push == Some(true),
            self.enabled(base).len() > 0,
        ensures
            self.build_result(tag, base) == Err::<Seq<CommandView>, Seq<char>>(Self::load_push_message()),
    {
    }

    /// A build that keeps no platform is refused before any command.
    pub proof fn lemma_nothing_kept_refused(&self, tag: Seq<char>, base: Seq<PlatformView>)
        requires
            self.enabled(base).len() == 0,
        ensures
            self.build_result(tag, base) == Err::<Seq<CommandView>, Seq<char>>(Self::no_platform_message()),
    {
    }

    /// `c` is a command of a build of the image `tag` under this
    /// configuration, stated on its arguments: a `docker buildx build` on the
    /// tuggy builder that loads when configured to and names its platforms
    /// otherwise, names the image after `-t` and the configured Dockerfile
    /// after `-f` whatever else the build does, and ends with the configured
    /// extra arguments, in order, and the working directory; or a
    /// `docker buildx imagetools create` on the tuggy builder that adds a
    /// configured alias after `-t` to that image.
    pub open spec fn builds_image(&self, c: CommandView, tag: Seq<char>) -> bool {
        match c.stage {
            Stage::Build => {
                &&& c.args.len() > 5
                &&& c.args.take(4) == seq!["buildx"@, "build"@, "--builder"@, "tuggy"@]
                &&& c.args[4] == (if self.load == Some(true) {
                    "--load"@
                } else {
                    "--platform"@
                })
                &&& carries(c.args, "-t"@, tag)
                &&& (match &self.dockerfile {
                    Some(d) => carries(c.args, "-f"@, d@),
                    None => true,
                })
                &&& (match &self.buildx_args {
                    Some(v) => c.args.len() > v@.len() && c.args.subrange(
                        c.args.len() - 1 - v@.len(),
                        c.args.len() - 1,
                    ) == v@.map_values(|a: String| a@),
                    None => true,
                })
                &&& c.args.last() == (match &self.directory {
                    Some(d) => d@,
                    None => "."@,
                })
            },
            Stage::Retag => {
                &&& c.args.len() == 8
                &&& c.args.take(5) == seq!["buildx"@, "imagetools"@, "--builder"@, "tuggy"@, "create"@]
                &&& c.args[5] == "-t"@
                &&& (match &self.aliases {
                    Some(v) => v@.map_values(|a: String| a@).contains(c.args[6]),
                    None => false,
                })
                &&& c.args[7] == tag
            },
            _ => false,
        }
    }

    proof fn lemma_build_args_image(&self, tag: Seq<char>, g: Seq<Seq<char>>, p: bool)
        ensures
            self.builds_image(
                CommandView { stage: Stage::Build, args: self.build_args(tag, g, p), log: self.logs(), no_default_load: true },
                tag,
            ),
    {
        let head = seq!["buildx"@, "build"@, "--builder"@, BUILDER_NAME@];
        let mode = if self.load == Some(true) {
            seq!["--load"@]
        } else {
            seq!["--platform"@, join(g, ","@)]
        };
        let pushing = if p {
            seq!["--push"@]
        } else {
            seq![]
        };
        let named = seq!["-t"@, tag];
        let df = match &self.dockerfile {
            Some(d) => seq!["-f"@, d@],
            None => seq![],
        };
        let a0 = head + mode + pushing;
        let a1 = a0 + named;
        let a2 = a1 + df;
        let a3 = a2 + self.extra_args();
        let a = a3 + seq![self.working_directory()];
        assert(a == self.build_args(tag, g, p));
        let i = a0.len() as int;
        assert(a1[i] == "-t"@ && a1[i + 1] == tag);
        assert(a[i] == a1[i] && a[i + 1] == a1[i + 1]);
        assert(carries(a, "-t"@, tag));
        reveal_strlit("tuggy");
        assert(BUILDER_NAME@ == "tuggy"@);
        assert(a.take(4) =~= head);
        match &self.buildx_args {
            Some(v) => {
                assert(a.subrange(a.len() - 1 - v@.len(), a.len() - 1) =~= v@.map_values(|x: String| x@));
            },
            None => {},
        }
        match &self.dockerfile {
            Some(d) => {
                let j = a1.len() as int;
                assert(a2[j] == "-f"@ && a2[j + 1] == d@);
                assert(a[j] == a2[j] && a[j + 1] == a2[j + 1]);
                assert(carries(a, "-f"@, d@));
            },
            None => {},
        }
    }

    proof fn lemma_batch_commands_image(&self, tag: Seq<char>, g: Seq<Seq<char>>, p: bool, r: bool)
        ensures
            forall|k: int| 0 <= k < self.batch_commands(tag, g, p, r).len()
                ==> self.builds_image(#[trigger] self.batch_commands(tag, g, p, r)[k], tag),
    {
        let cs = self.batch_commands(tag, g, p, r);
        self.lemma_build_args_image(tag, g, p);
        assert forall|k: int| 0 <= k < cs.len() implies self.builds_image(#[trigger] cs[k], tag) by {
            if k > 0 {
                let v = self.aliases->0;
                let al = self.alias_list();
                assert(r && self.aliases is Some);
                assert(cs[k] == retag_view(al[k - 1], tag, self.logs()));
                reveal_strlit("tuggy");
                assert(cs[k].args.take(5) =~= seq!["buildx"@, "imagetools"@, "--builder"@, "tuggy"@, "create"@]);
                assert(al[k - 1] == v@[k - 1]@);
                assert(v@.map_values(|a: String| a@)[k - 1] == al[k - 1]);
            }
        }
    }

    proof fn lemma_batches_image(&self, tag: Seq<char>, gs: Seq<Seq<Seq<char>>>)
        ensures
            forall|k: int| 0 <= k < self.batches(tag, gs).len() ==> self.builds_image(
                #[trigger] self.batches(tag, gs)[k],
                tag,
            ),
        decreases gs.len(),
    {
        if gs.len() > 0 {
            let f = |x: Seq<Seq<char>>| self.batch_commands(tag, x, false, !self.pushes());
            let m = gs.map_values(f);
            assert(m.drop_first() =~= gs.drop_first().map_values(f));
            self.lemma_batches_image(tag, gs.drop_first());
            self.lemma_batch_commands_image(tag, gs[0], false, !self.pushes());
            let first = m[0];
            let rest = self.batches(tag, gs.drop_first());
            assert(self.batches(tag, gs) == first + rest);
            assert forall|k: int| 0 <= k < self.batches(tag, gs).len() implies self.builds_image(
                #[trigger] self.batches(tag, gs)[k],
                tag,
            ) by {
                if k < first.len() {
                    assert(self.batches(tag, gs)[k] == first[k]);
                } else {
                    assert(self.batches(tag, gs)[k] == rest[k - first.len()]);
                }
            }
        }
    }

    /// Every command that a build plans builds or tags the image that the
    /// build was asked for: each `docker buildx build` passes that image after
    /// `-t`, the configured Dockerfile after `-f` (loading, pushing or
    /// neither), and the working directory last; each retag adds a configured
    /// alias to that image.
    pub proof fn lemma_plan_builds_image(&self, tag: Seq<char>, base: Seq<PlatformView>)
        ensures
            self.build_result(tag, base) is Ok ==> forall|k: int|
                0 <= k < self.build_result(tag, base)->Ok_0.len() ==> self.builds_image(
                    #[trigger] self.build_result(tag, base)->Ok_0[k],
                    tag,
                ),
    {
        let rs = self.kept_renders(base);
        let plan = self.build_plan(tag, rs);
        if self.batch_size() == 0 {
            self.lemma_batch_commands_image(tag, rs, self.pushes(), true);
        } else {
            let b = self.batches(tag, chunks(rs, self.batch_size()));
            self.lemma_batches_image(tag, chunks(rs, self.batch_size()));
            self.lemma_batch_commands_image(tag, rs, true, true);
            assert forall|k: int| 0 <= k < plan.len() implies self.builds_image(#[trigger] plan[k], tag) by {
                if k < b.len() {
                    assert(plan[k] == b[k]);
                } else {
                    let last = self.batch_commands(tag, rs, true, true);
                    assert(plan[k] == last[k - b.len()]);
                }
            }
        }
    }

    /// The skip pattern is built from the configured skip list whenever one
    /// is configured, however short (an empty list gives `^()$`), and from
    /// the six fringe platforms only when none is configured.
    pub proof fn lemma_skip_source(&self)
        ensures
            match &self.platforms_skip {
                Some(v) => self.skip_source() == "^("@ + join(v@.map_values(|s: String| s@), "|"@) + ")$"@,
                None => self.skip_source()
                    == "^(linux/loong64|linux/mips64|linux/mips64le|linux/ppc64le|linux/riscv64|linux/s390x)$"@,
            },
            self.platforms_skip is Some && self.platforms_skip->0@.len() == 0 ==> self.skip_source() == "^()$"@,
    {
        reveal_strlit("^(");
        reveal_strlit(")$");
        reveal_strlit("^()$");
        reveal_strlit("|");
        match &self.platforms_skip {
            Some(v) => {
                if v@.len() == 0 {
                    assert(join(v@.map_values(|s: String| s@), "|"@) =~= seq![]);
                    assert("^("@ + seq![] + ")$"@ =~= "^()$"@);
                }
            },
            None => {
                let l = default_skip_list();
                reveal_strlit("linux/loong64");
                reveal_strlit("linux/mips64");
                reveal_strlit("linux/mips64le");
                reveal_strlit("linux/ppc64le");
                reveal_strlit("linux/riscv64");
                reveal_strlit("linux/s390x");
                reveal_strlit(
                    "^(linux/loong64|linux/mips64|linux/mips64le|linux/ppc64le|linux/riscv64|linux/s390x)$",
                );
                let l5 = l.drop_last();
                let l4 = l5.drop_last();
                let l3 = l4.drop_last();
                let l2 = l3.drop_last();
                let l1 = l2.drop_last();
                assert(join(l1, "|"@) == "linux/loong64"@);
                assert(join(l2, "|"@) == "linux/loong64"@ + "|"@ + "linux/mips64"@);
                assert(join(l3, "|"@) == join(l2, "|"@) + "|"@ + "linux/mips64le"@);
                assert(join(l4, "|"@) == join(l3, "|"@) + "|"@ + "linux/ppc64le"@);
                assert(join(l5, "|"@) == join(l4, "|"@) + "|"@ + "linux/riscv64"@);
                assert(join(l, "|"@) == join(l5, "|"@) + "|"@ + "linux/s390x"@);
                assert(self.skip_source() =~= "^(linux/loong64|linux/mips64|linux/mips64le|linux/ppc64le|linux/riscv64|linux/s390x)$"@);
            },
        }
    }
}

} // verus!
