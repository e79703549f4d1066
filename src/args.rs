use crate::text::{concat_str, decimal, decimal_string, views};
use vstd::prelude::*;

verus! {

/// The views of a sequence of string slices.
pub open spec fn str_views(s: Seq<&str>) -> Seq<Seq<char>> {
    s.map_values(|x: &str| x@)
}

/// The image reference: the repository, and `:tag` after it when the tag is not empty.
pub open spec fn image_ref(repo: Seq<char>, tag: Seq<char>) -> Seq<char> {
    if tag.len() == 0 {
        repo
    } else {
        repo + ":"@ + tag
    }
}

/// The text `EXT:INT` of a port mapping.
pub open spec fn port_pair(external: nat, internal: nat) -> Seq<char> {
    decimal(external) + ":"@ + decimal(internal)
}

/// `-p EXT:INT` when both ports are non-zero, else nothing.
pub open spec fn port_args(external: usize, internal: usize) -> Seq<Seq<char>> {
    if external != 0 && internal != 0 {
        seq!["-p"@, port_pair(external as nat, internal as nat)]
    } else {
        Seq::empty()
    }
}

/// `flag` followed by each value in turn, the flag repeated before each.
pub open spec fn repeated_flag(flag: Seq<char>, values: Seq<Seq<char>>) -> Seq<Seq<char>>
    decreases values.len(),
{
    if values.len() == 0 {
        Seq::empty()
    } else {
        repeated_flag(flag, values.drop_last()) + seq![flag, values.last()]
    }
}

/// `-e KEY=VALUE` for each entry, in order.
pub open spec fn env_args(entries: Seq<(Seq<char>, Seq<char>)>) -> Seq<Seq<char>>
    decreases entries.len(),
{
    if entries.len() == 0 {
        Seq::empty()
    } else {
        env_args(entries.drop_last()) + seq![
            "-e"@,
            entries.last().0 + "="@ + entries.last().1,
        ]
    }
}

/// Each key followed by its value, in order.
pub open spec fn flag_args(entries: Seq<(Seq<char>, Seq<char>)>) -> Seq<Seq<char>>
    decreases entries.len(),
{
    if entries.len() == 0 {
        Seq::empty()
    } else {
        flag_args(entries.drop_last()) + seq![entries.last().0, entries.last().1]
    }
}

/// `flag value` when there is a value, else nothing.
pub open spec fn opt_flag(flag: Seq<char>, value: Option<Seq<char>>) -> Seq<Seq<char>> {
    match value {
        Some(v) => seq![flag, v],
        None => Seq::empty(),
    }
}

/// Appends `s` to `v`.
pub fn push_str(v: &mut Vec<String>, s: &str)
    ensures
        views(final(v)@) == views(old(v)@).push(s@),
{
    v.push(s.to_string());
    assert(views(v@) =~= views(old(v)@).push(s@));
}

/// Appends the strings of `w` to `v`.
pub fn push_all(v: &mut Vec<String>, w: Vec<String>)
    ensures
        views(final(v)@) == views(old(v)@) + views(w@),
{
    let ghost added = w@;
    let mut w = w;
    v.append(&mut w);
    assert(views(v@) =~= views(old(v)@) + views(added));
}

/// The strings of `items`, in order.
pub fn strings(items: &[&str]) -> (r: Vec<String>)
    ensures
        views(r@) == str_views(items@),
{
    let mut r: Vec<String> = Vec::new();
    let mut i: usize = 0;
    while i < items.len()
        invariant
            i <= items@.len(),
            views(r@) == str_views(items@).take(i as int),
        decreases items@.len() - i,
    {
        push_str(&mut r, items[i]);
        assert(str_views(items@).take(i + 1) =~= str_views(items@).take(i as int).push(
            items@[i as int]@,
        ));
        i = i + 1;
    }
    assert(str_views(items@).take(items@.len() as int) =~= str_views(items@));
    r
}

/// The image reference for `repo` and `tag`.
pub fn image_ref_string(repo: &str, tag: &str) -> (r: String)
    ensures
        r@ == image_ref(repo@, tag@),
{
    if tag.unicode_len() == 0 {
        repo.to_string()
    } else {
        let mut r = concat_str(repo, ":");
        r.append(tag);
        r
    }
}

/// The arguments `-p EXT:INT`, or none unless both ports are non-zero.
pub fn port_arg_strings(external: usize, internal: usize) -> (r: Vec<String>)
    ensures
        views(r@) == port_args(external, internal),
{
    let mut r: Vec<String> = Vec::new();
    if external != 0 && internal != 0 {
        push_str(&mut r, "-p");
        let mut pair = decimal_string(external);
        pair.append(":");
        pair.append(decimal_string(internal).as_str());
        assert(pair@ == port_pair(external as nat, internal as nat));
        let ghost before = views(r@);
        r.push(pair);
        assert(views(r@) =~= before.push(port_pair(external as nat, internal as nat)));
        assert(views(r@) =~= port_args(external, internal));
    } else {
        assert(views(r@) =~= port_args(external, internal));
    }
    r
}

/// `flag` before each of `values`.
pub fn repeated_flag_strings(flag: &str, values: &[&str]) -> (r: Vec<String>)
    ensures
        views(r@) == repeated_flag(flag@, str_views(values@)),
{
    let mut r: Vec<String> = Vec::new();
    let mut i: usize = 0;
    while i < values.len()
        invariant
            i <= values@.len(),
            views(r@) == repeated_flag(flag@, str_views(values@).take(i as int)),
        decreases values@.len() - i,
    {
        let ghost before = str_views(values@).take(i as int);
        assert(str_views(values@).take(i + 1).drop_last() =~= before);
        push_str(&mut r, flag);
        push_str(&mut r, values[i]);
        i = i + 1;
    }
    assert(str_views(values@).take(values@.len() as int) =~= str_views(values@));
    r
}

/// `-e KEY=VALUE` for each of `entries`, in order.
pub fn env_arg_strings(entries: &Vec<(String, String)>) -> (r: Vec<String>)
    ensures
        views(r@) == env_args(crate::key_values::pair_views(entries@)),
{
    let ghost all = crate::key_values::pair_views(entries@);
    let mut r: Vec<String> = Vec::new();
    let mut i: usize = 0;
    while i < entries.len()
        invariant
            i <= entries@.len(),
            all == crate::key_values::pair_views(entries@),
            views(r@) == env_args(all.take(i as int)),
        decreases entries@.len() - i,
    {
        assert(all.take(i + 1).drop_last() =~= all.take(i as int));
        push_str(&mut r, "-e");
        let mut kv = concat_str(entries[i].0.as_str(), "=");
        kv.append(entries[i].1.as_str());
        assert(all[i as int] == (entries@[i as int].0@, entries@[i as int].1@));
        assert(kv@ == all[i as int].0 + "="@ + all[i as int].1);
        let ghost before = views(r@);
        let ghost kvv = kv@;
        r.push(kv);
        assert(views(r@) =~= before.push(kvv));
        assert(views(r@) =~= env_args(all.take(i + 1)));
        i = i + 1;
    }
    assert(all.take(entries@.len() as int) =~= all);
    r
}

/// Each key of `entries` followed by its value, in order.
pub fn flag_arg_strings(entries: &Vec<(String, String)>) -> (r: Vec<String>)
    ensures
        views(r@) == flag_args(crate::key_values::pair_views(entries@)),
{
    let ghost all = crate::key_values::pair_views(entries@);
    let mut r: Vec<String> = Vec::new();
    let mut i: usize = 0;
    while i < entries.len()
        invariant
            i <= entries@.len(),
            all == crate::key_values::pair_views(entries@),
            views(r@) == flag_args(all.take(i as int)),
        decreases entries@.len() - i,
    {
        assert(all.take(i + 1).drop_last() =~= all.take(i as int));
        push_str(&mut r, entries[i].0.as_str());
        push_str(&mut r, entries[i].1.as_str());
        assert(views(r@) =~= flag_args(all.take(i + 1)));
        i = i + 1;
    }
    assert(all.take(entries@.len() as int) =~= all);
    r
}

} // verus!
