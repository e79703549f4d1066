use crate::args::{
    env_arg_strings, env_args, flag_arg_strings, flag_args, image_ref, image_ref_string, opt_flag,
    port_arg_strings, port_args, port_pair, push_all, push_str, repeated_flag,
    repeated_flag_strings, str_views, strings,
};
use crate::error::KissDockerError;
use crate::key_values::KeyValues;
use crate::text::{opt_view, views};
use vstd::prelude::*;

verus! {

/// What a container is started from and with.
#[derive(Debug, Clone)]
pub struct Container<'a> {
    pub repo: &'a str,
    /// The tag; empty means the repository alone.
    pub tag: &'a str,
    /// Bind-mount volume specifications, in order.
    pub volumes: &'a [&'a str],
    /// Environment variables for the container.
    pub env: KeyValues,
    pub port_expose: usize,
    pub port_internal: usize,
    /// Wait for the container to finish rather than detach from it.
    pub blocking: bool,
    /// Keep the container once it has exited rather than remove it.
    pub norm: bool,
    /// Runtime options, each key with its value; the caller gives the `-` or `--` prefix.
    pub flags: KeyValues,
    /// The command to run in the container and its arguments.
    pub ops: &'a [&'a str],
    pub network: Option<&'a str>,
    pub name: Option<&'a str>,
}

impl<'a> Container<'a> {
    /// The arguments that start this container, in the order the runtime reads
    /// them: options first, then the image reference, then the command.
    pub open spec fn run_args(&self) -> Seq<Seq<char>> {
        seq!["run"@] + (if !self.blocking {
            seq!["-d"@]
        } else {
            Seq::empty()
        }) + (if !self.norm {
            seq!["--rm"@]
        } else {
            Seq::empty()
        }) + port_args(self.port_expose, self.port_internal) + repeated_flag(
            "-v"@,
            str_views(self.volumes@),
        ) + env_args(self.env@) + opt_flag("--network"@, opt_view(self.network)) + opt_flag(
            "--name"@,
            opt_view(self.name),
        ) + flag_args(self.flags@) + seq![image_ref(self.repo@, self.tag@)] + str_views(
            self.ops@,
        )
    }

    /// The image reference: `repo`, or `repo:tag` when the tag is not empty.
    pub fn get_image(&self) -> (r: String)
        ensures
            r@ == image_ref(self.repo@, self.tag@),
    {
        image_ref_string(self.repo, self.tag)
    }

    /// `-e KEY=VALUE` for each environment variable.
    pub fn get_env(&self) -> (r: Vec<String>)
        ensures
            views(r@) == env_args(self.env@),
    {
        env_arg_strings(self.env.entries())
    }

    /// Each runtime option followed by its value.
    pub fn get_runtime_flags(&self) -> (r: Vec<String>)
        ensures
            views(r@) == flag_args(self.flags@),
    {
        flag_arg_strings(self.flags.entries())
    }

    /// The arguments that start this container.
    pub fn start_args(&self) -> (r: Vec<String>)
        ensures
            views(r@) == self.run_args(),
    {
        let mut cmd: Vec<String> = Vec::new();
        push_str(&mut cmd, "run");
        if !self.blocking {
            push_str(&mut cmd, "-d");
        }
        if !self.norm {
            push_str(&mut cmd, "--rm");
        }
        push_all(&mut cmd, port_arg_strings(self.port_expose, self.port_internal));
        push_all(&mut cmd, repeated_flag_strings("-v", self.volumes));
        push_all(&mut cmd, self.get_env());
        if let Some(network) = self.network {
            push_str(&mut cmd, "--network");
            push_str(&mut cmd, network);
        }
        if let Some(name) = self.name {
            push_str(&mut cmd, "--name");
            push_str(&mut cmd, name);
        }
        push_all(&mut cmd, self.get_runtime_flags());
        let image = self.get_image();
        push_str(&mut cmd, image.as_str());
        let mut i: usize = 0;
        let ghost head = views(cmd@);
        while i < self.ops.len()
            invariant
                i <= self.ops@.len(),
                views(cmd@) == head + str_views(self.ops@).take(i as int),
            decreases self.ops@.len() - i,
        {
            push_str(&mut cmd, self.ops[i]);
            assert(str_views(self.ops@).take(i + 1) =~= str_views(self.ops@).take(i as int).push(
                self.ops@[i as int]@,
            ));
            i = i + 1;
        }
        assert(str_views(self.ops@).take(self.ops@.len() as int) =~= str_views(self.ops@));
        assert(views(cmd@) =~= self.run_args());
        cmd
    }
}

impl<'a> Default for Container<'a> {
    /// A container of no image, with every option off or empty.
    fn default() -> (r: Container<'a>)
        ensures
            r.repo@ == Seq::<char>::empty(),
            r.tag@ == Seq::<char>::empty(),
            r.volumes@ == Seq::<&str>::empty(),
            r.env@ == Seq::<(Seq<char>, Seq<char>)>::empty(),
            r.port_expose == 0,
            r.port_internal == 0,
            !r.blocking,
            !r.norm,
            r.flags@ == Seq::<(Seq<char>, Seq<char>)>::empty(),
            r.ops@ == Seq::<&str>::empty(),
            r.network is None,
            r.name is None,
    {
        proof {
            reveal_strlit("");
        }
        Container {
            repo: "",
            tag: "",
            volumes: &[],
            env: KeyValues::new(),
            port_expose: 0,
            port_internal: 0,
            blocking: false,
            norm: false,
            flags: KeyValues::new(),
            ops: &[],
            network: None,
            name: None,
        }
    }
}

/// No text that the caller gave, and that lands among the arguments as it is,
/// equals `arg`.
pub open spec fn not_given(c: Container, arg: Seq<char>) -> bool {
    &&& !str_views(c.volumes@).contains(arg)
    &&& !flag_args(c.flags@).contains(arg)
    &&& opt_view(c.network) != Some(arg)
    &&& opt_view(c.name) != Some(arg)
    &&& image_ref(c.repo@, c.tag@) != arg
    &&& !str_views(c.ops@).contains(arg)
}

/// With both ports zero the arguments that start a container hold no `-p`;
/// with both ports non-zero they hold exactly one `-p`, followed by `EXT:INT`.
/// Either holds unless the caller gave `-p` itself as one of its texts.
pub proof fn lemma_port_flag(c: Container)
    requires
        not_given(c, "-p"@),
    ensures
        c.port_expose == 0 && c.port_internal == 0 ==> !c.run_args().contains("-p"@),
        c.port_expose != 0 && c.port_internal != 0 ==> exists|i: int|
            #[trigger] only_at(c.run_args(), "-p"@, i) && i + 1 < c.run_args().len()
                && c.run_args()[i + 1] == port_pair(c.port_expose as nat, c.port_internal as nat),
{
    let p = "-p"@;
    let pre = before_ports(c);
    let post = after_ports(c);
    let ports = port_args(c.port_expose, c.port_internal);
    let r = c.run_args();
    lemma_run_args_split(c);
    lemma_before_ports_absent(c);
    lemma_after_ports_absent(c);
    if c.port_expose != 0 && c.port_internal != 0 {
        let i = pre.len() as int;
        assert(r[i] == ports[0]);
        assert(r[i + 1] == ports[1]);
        lemma_port_pair_len(c.port_expose as nat, c.port_internal as nat);
        assert forall|k: int| 0 <= k < r.len() && k != i implies r[k] != p by {
            if k < i {
                assert(r[k] == pre[k]);
            } else if k > i + 1 {
                assert(r[k] == post[k - i - 2]);
            } else {
                assert(r[k] == ports[1]);
            }
        }
        assert(only_at(r, p, i));
    } else {
        assert(ports =~= Seq::<Seq<char>>::empty());
        assert forall|k: int| 0 <= k < r.len() implies r[k] != p by {
            if k < pre.len() {
                assert(r[k] == pre[k]);
            } else {
                assert(r[k] == post[k - pre.len()]);
            }
        }
    }
}

/// The arguments that start a container and come before the port mapping.
pub open spec fn before_ports(c: Container) -> Seq<Seq<char>> {
    seq!["run"@] + (if !c.blocking {
        seq!["-d"@]
    } else {
        Seq::empty()
    }) + (if !c.norm {
        seq!["--rm"@]
    } else {
        Seq::empty()
    })
}

/// The arguments that start a container and come after the port mapping.
pub open spec fn after_ports(c: Container) -> Seq<Seq<char>> {
    repeated_flag("-v"@, str_views(c.volumes@)) + env_args(c.env@) + opt_flag(
        "--network"@,
        opt_view(c.network),
    ) + opt_flag("--name"@, opt_view(c.name)) + flag_args(c.flags@) + seq![
        image_ref(c.repo@, c.tag@),
    ] + str_views(c.ops@)
}

proof fn lemma_run_args_split(c: Container)
    ensures
        c.run_args() == before_ports(c) + port_args(c.port_expose, c.port_internal) + after_ports(c),
{
    assert(c.run_args() =~= before_ports(c) + port_args(c.port_expose, c.port_internal)
        + after_ports(c));
}

proof fn lemma_before_ports_absent(c: Container)
    ensures
        absent(before_ports(c), "-p"@),
{
    reveal_strlit("-p");
    reveal_strlit("run");
    reveal_strlit("-d");
    reveal_strlit("--rm");
    assert("run"@.len() != "-p"@.len());
    assert("--rm"@.len() != "-p"@.len());
    assert("-d"@[1] != "-p"@[1]);
}

proof fn lemma_after_ports_absent(c: Container)
    requires
        not_given(c, "-p"@),
    ensures
        absent(after_ports(c), "-p"@),
{
    let p = "-p"@;
    reveal_strlit("-p");
    reveal_strlit("-v");
    reveal_strlit("--network");
    reveal_strlit("--name");
    assert("-v"@[1] != p[1]);
    assert("--network"@.len() != p.len());
    assert("--name"@.len() != p.len());
    let vols = repeated_flag("-v"@, str_views(c.volumes@));
    let env = env_args(c.env@);
    let net = opt_flag("--network"@, opt_view(c.network));
    let name = opt_flag("--name"@, opt_view(c.name));
    let flags = flag_args(c.flags@);
    let tail = seq![image_ref(c.repo@, c.tag@)] + str_views(c.ops@);
    lemma_repeated_flag_absent("-v"@, str_views(c.volumes@), p);
    lemma_env_args_absent(c.env@);
    assert(absent(flags, p));
    assert(absent(net, p));
    assert(absent(name, p));
    assert(absent(tail, p));
    lemma_absent_concat(vols, env, p);
    lemma_absent_concat(vols + env, net, p);
    lemma_absent_concat(vols + env + net, name, p);
    lemma_absent_concat(vols + env + net + name, flags, p);
    lemma_absent_concat(vols + env + net + name + flags, tail, p);
    assert(after_ports(c) =~= vols + env + net + name + flags + tail);
}

proof fn lemma_absent_concat(a: Seq<Seq<char>>, b: Seq<Seq<char>>, x: Seq<char>)
    requires
        absent(a, x),
        absent(b, x),
    ensures
        absent(a + b, x),
{
    assert forall|k: int| 0 <= k < (a + b).len() implies (a + b)[k] != x by {
        if k >= a.len() {
            assert((a + b)[k] == b[k - a.len()]);
        }
    }
}

/// `x` stands at position `i` of `s` and nowhere else.
pub open spec fn only_at(s: Seq<Seq<char>>, x: Seq<char>, i: int) -> bool {
    &&& 0 <= i < s.len()
    &&& s[i] == x
    &&& forall|k: int| 0 <= k < s.len() && k != i ==> s[k] != x
}

/// No element of `s` is `x`.
pub open spec fn absent(s: Seq<Seq<char>>, x: Seq<char>) -> bool {
    forall|k: int| 0 <= k < s.len() ==> s[k] != x
}

proof fn lemma_repeated_flag_absent(flag: Seq<char>, values: Seq<Seq<char>>, x: Seq<char>)
    requires
        flag != x,
        !values.contains(x),
    ensures
        absent(repeated_flag(flag, values), x),
    decreases values.len(),
{
    if values.len() > 0 {
        assert(!values.drop_last().contains(x)) by {
            if values.drop_last().contains(x) {
                let j = choose|j: int| 0 <= j < values.drop_last().len() && values.drop_last()[j] == x;
                assert(values[j] == x);
            }
        }
        lemma_repeated_flag_absent(flag, values.drop_last(), x);
        assert(values.last() != x) by {
            assert(values[values.len() - 1] == values.last());
        }
    }
}

proof fn lemma_env_args_absent(entries: Seq<(Seq<char>, Seq<char>)>)
    ensures
        absent(env_args(entries), "-p"@),
    decreases entries.len(),
{
    reveal_strlit("-p");
    reveal_strlit("-e");
    reveal_strlit("=");
    if entries.len() > 0 {
        lemma_env_args_absent(entries.drop_last());
        let k = entries.last().0;
        let kv = k + "="@ + entries.last().1;
        assert(kv[k.len() as int] == '=');
        assert(kv != "-p"@) by {
            if kv == "-p"@ {
                assert("-p"@.len() == 2);
                assert("="@.len() == 1);
                assert(k.len() <= 1);
                assert("-p"@[0] == '-');
                assert("-p"@[1] == 'p');
            }
        }
        assert("-e"@[1] != "-p"@[1]);
        lemma_absent_concat(env_args(entries.drop_last()), seq!["-e"@, kv], "-p"@);
    }
}

proof fn lemma_port_pair_len(external: nat, internal: nat)
    ensures
        port_pair(external, internal).len() >= 3,
        port_pair(external, internal) != "-p"@,
{
    reveal_strlit("-p");
    reveal_strlit(":");
    crate::text::lemma_decimal_len(external);
    crate::text::lemma_decimal_len(internal);
    assert(":"@.len() == 1);
    assert("-p"@.len() == 2);
}

/// The arguments that stop the container `id`.
pub fn stop_args(id: &str) -> (r: Vec<String>)
    ensures
        views(r@) == seq!["stop"@, id@],
{
    let r = strings(&["stop", id]);
    assert(str_views(seq!["stop", id]) =~= seq!["stop"@, id@]);
    r
}

/// The arguments that remove the stopped container `id`.
pub fn rm_args(id: &str) -> (r: Vec<String>)
    ensures
        views(r@) == seq!["rm"@, id@],
{
    let r = strings(&["rm", id]);
    assert(str_views(seq!["rm", id]) =~= seq!["rm"@, id@]);
    r
}

/// The arguments that list the running containers, one JSON object per line.
pub fn list_running_args() -> (r: Vec<String>)
    ensures
        views(r@) == seq!["ps"@, "-a"@, "-f"@, "status=running"@, "--format"@, "{{json .}}"@],
{
    let r = strings(&["ps", "-a", "-f", "status=running", "--format", "{{json .}}"]);
    assert(str_views(seq!["ps", "-a", "-f", "status=running", "--format", "{{json .}}"])
        =~= seq!["ps"@, "-a"@, "-f"@, "status=running"@, "--format"@, "{{json .}}"@]);
    r
}

/// The arguments that list all containers, one JSON object per line.
pub fn list_all_args() -> (r: Vec<String>)
    ensures
        views(r@) == seq!["ps"@, "-a"@, "--format"@, "{{json .}}"@],
{
    let r = strings(&["ps", "-a", "--format", "{{json .}}"]);
    assert(str_views(seq!["ps", "-a", "--format", "{{json .}}"]) =~= seq![
        "ps"@,
        "-a"@,
        "--format"@,
        "{{json .}}"@,
    ]);
    r
}

/// Where stopping and then removing one container stands.
pub enum StopAndRemove {
    /// `stop` has been issued.
    Stopping,
    /// `stop` succeeded and `rm` has been issued.
    Removing,
    /// Nothing more is to be issued.
    Finished,
}

/// What the caller is to do next: run the tool with these arguments and hand
/// back how it ended, or stop with this result.
pub enum Step {
    Run(Vec<String>),
    Done(Result<(), KissDockerError>),
}

/// A step, with its arguments as character sequences.
pub enum StepView {
    Run(Seq<Seq<char>>),
    Done(Result<(), KissDockerError>),
}

impl View for Step {
    type V = StepView;

    open spec fn view(&self) -> StepView {
        match self {
            Step::Run(v) => StepView::Run(views(v@)),
            Step::Done(r) => StepView::Done(*r),
        }
    }
}

/// The next phase and step once the command in flight in `phase` has ended with `outcome`.
pub open spec fn advance_spec(
    phase: StopAndRemove,
    id: Seq<char>,
    outcome: Result<String, KissDockerError>,
) -> (StopAndRemove, StepView) {
    match outcome {
        Err(e) => (StopAndRemove::Finished, StepView::Done(Err(e))),
        Ok(_) => match phase {
            StopAndRemove::Stopping => (StopAndRemove::Removing, StepView::Run(seq!["rm"@, id])),
            _ => (StopAndRemove::Finished, StepView::Done(Ok(()))),
        },
    }
}

/// The commands issued on `id` from `phase`, with `pending` in flight, when each
/// command comes back with the next of `outcomes`.
pub open spec fn issued_from(
    phase: StopAndRemove,
    id: Seq<char>,
    pending: Seq<Seq<char>>,
    outcomes: Seq<Result<String, KissDockerError>>,
) -> Seq<Seq<Seq<char>>>
    decreases outcomes.len(),
{
    if outcomes.len() == 0 {
        seq![pending]
    } else {
        match advance_spec(phase, id, outcomes[0]) {
            (next, StepView::Run(cmd)) => seq![pending] + issued_from(
                next,
                id,
                cmd,
                outcomes.drop_first(),
            ),
            (_, StepView::Done(_)) => seq![pending],
        }
    }
}

/// The commands that stopping and removing `id` issues when each command comes
/// back with the next of `outcomes`.
pub open spec fn issued(id: Seq<char>, outcomes: Seq<Result<String, KissDockerError>>) -> Seq<
    Seq<Seq<char>>,
> {
    issued_from(StopAndRemove::Stopping, id, seq!["stop"@, id], outcomes)
}

/// Stopping and removing a container issues `stop` first, and `rm` only once
/// `stop` has succeeded: when `stop` fails, it is the one command issued.
pub proof fn lemma_remove_only_after_stop(
    id: Seq<char>,
    outcomes: Seq<Result<String, KissDockerError>>,
)
    requires
        outcomes.len() >= 1,
    ensures
        outcomes[0] is Err ==> issued(id, outcomes) == seq![seq!["stop"@, id]],
        outcomes[0] is Ok && outcomes.len() >= 2 ==> issued(id, outcomes) == seq![
            seq!["stop"@, id],
            seq!["rm"@, id],
        ],
        issued(id, outcomes).len() <= 2,
{
    let rest = outcomes.drop_first();
    if outcomes[0] is Ok {
        assert(issued_from(StopAndRemove::Removing, id, seq!["rm"@, id], rest).len() <= 1);
        if rest.len() >= 1 {
            assert(issued_from(StopAndRemove::Removing, id, seq!["rm"@, id], rest) == seq![
                seq!["rm"@, id],
            ]);
            assert(issued(id, outcomes) =~= seq![seq!["stop"@, id], seq!["rm"@, id]]);
        }
    }
}

impl StopAndRemove {
    /// Starts stopping and removing the container `id`: `stop` is issued first.
    pub fn begin(id: &str) -> (r: (StopAndRemove, Step))
        ensures
            r.0 is Stopping,
            r.1@ == StepView::Run(seq!["stop"@, id@]),
    {
        (StopAndRemove::Stopping, Step::Run(stop_args(id)))
    }

    /// The next phase and step once the command in flight has ended with `outcome`:
    /// a failure ends the whole at once with that failure; a stopped container is
    /// removed next; a removed one ends it with success.
    pub fn advance(self, id: &str, outcome: Result<String, KissDockerError>) -> (r: (
        StopAndRemove,
        Step,
    ))
        ensures
            (r.0, r.1@) == advance_spec(self, id@, outcome),
    {
        match outcome {
            Err(e) => (StopAndRemove::Finished, Step::Done(Err(e))),
            Ok(_) => match self {
                StopAndRemove::Stopping => (StopAndRemove::Removing, Step::Run(rm_args(id))),
                _ => (StopAndRemove::Finished, Step::Done(Ok(()))),
            },
        }
    }
}

} // verus!
