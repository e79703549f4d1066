use crate::args::{flag_arg_strings, flag_args, push_all, push_str, str_views, strings};
use crate::key_values::KeyValues;
use crate::text::views;
use vstd::prelude::*;

verus! {

/// What a network is created with.
#[derive(Debug, Clone)]
pub struct Network<'a> {
    pub name: &'a str,
    /// Runtime options, each key with its value; the caller gives the `-` or `--` prefix.
    pub flags: KeyValues,
}

impl<'a> Network<'a> {
    /// Each runtime option followed by its value.
    pub fn get_runtime_flags(&self) -> (r: Vec<String>)
        ensures
            views(r@) == flag_args(self.flags@),
    {
        flag_arg_strings(self.flags.entries())
    }

    /// The arguments that create this network: the options, then its name.
    pub fn create_args(&self) -> (r: Vec<String>)
        ensures
            views(r@) == seq!["network"@, "create"@] + flag_args(self.flags@) + seq![self.name@],
    {
        let mut cmd = strings(&["network", "create"]);
        assert(str_views(seq!["network", "create"]) =~= seq!["network"@, "create"@]);
        push_all(&mut cmd, self.get_runtime_flags());
        push_str(&mut cmd, self.name);
        cmd
    }
}

impl<'a> Default for Network<'a> {
    /// A network with an empty name and no options.
    fn default() -> (r: Network<'a>)
        ensures
            r.name@ == Seq::<char>::empty(),
            r.flags@ == Seq::<(Seq<char>, Seq<char>)>::empty(),
    {
        proof {
            reveal_strlit("");
        }
        Network { name: "", flags: KeyValues::new() }
    }
}

/// The arguments that list the networks, one JSON object per line.
pub fn list_networks_args() -> (r: Vec<String>)
    ensures
        views(r@) == seq!["network"@, "ls"@, "--format"@, "{{json .}}"@],
{
    let r = strings(&["network", "ls", "--format", "{{json .}}"]);
    assert(str_views(seq!["network", "ls", "--format", "{{json .}}"]) =~= seq![
        "network"@,
        "ls"@,
        "--format"@,
        "{{json .}}"@,
    ]);
    r
}

/// The arguments that remove the network `id`.
pub fn rm_network_args(id: &str) -> (r: Vec<String>)
    ensures
        views(r@) == seq!["network"@, "rm"@, id@],
{
    let r = strings(&["network", "rm", id]);
    assert(str_views(seq!["network", "rm", id]) =~= seq!["network"@, "rm"@, id@]);
    r
}

/// The arguments that connect the container `container_id` to the network `network_id`.
pub fn network_connect_args(network_id: &str, container_id: &str) -> (r: Vec<String>)
    ensures
        views(r@) == seq!["network"@, "connect"@, network_id@, container_id@],
{
    let r = strings(&["network", "connect", network_id, container_id]);
    assert(str_views(seq!["network", "connect", network_id, container_id]) =~= seq![
        "network"@,
        "connect"@,
        network_id@,
        container_id@,
    ]);
    r
}

/// The arguments that disconnect the container `container_id` from the network `network_id`.
pub fn network_disconnect_args(network_id: &str, container_id: &str) -> (r: Vec<String>)
    ensures
        views(r@) == seq!["network"@, "disconnect"@, network_id@, container_id@],
{
    let r = strings(&["network", "disconnect", network_id, container_id]);
    assert(str_views(seq!["network", "disconnect", network_id, container_id]) =~= seq![
        "network"@,
        "disconnect"@,
        network_id@,
        container_id@,
    ]);
    r
}

} // verus!
