//! Who may use the bot, and the state that the bot keeps while it runs.

use crate::idlist::{find, sort, sorted, without_one};
use crate::config::{ADMINS_KEY, GROUPS_KEY, MAINTAINERS_KEY, TOKEN_KEY};
use crate::number::{
    decimals, i64_list_of, join, parse_i64_list, parse_u64_list, render_list, u64_list_of, Number,
};
use crate::schedule::{PoolView, TaskPool};
use vstd::prelude::*;
use vstd::seq_lib::to_multiset_build;
use vstd::string::StringExecFns;

verus! {

/// The user who maintains the bot when no maintainers are configured.
pub const DEFAULT_MAINTAINER: u64 = 649191333;

/// The chat that is notified when no groups are configured.
pub const DEFAULT_GROUP: i64 = 649191333;

/// The people and chats that the bot answers to.
#[derive(Debug)]
pub struct Whitelist {
    /// Maintainers can appoint admins and manage the bot.
    pub maintainers: Vec<u64>,
    /// Admins can manage the bot.
    pub admins: Vec<u64>,
    /// The chats that notifications go to.
    pub groups: Vec<i64>,
}

/// Mathematical value of a [`Whitelist`].
pub struct WhitelistView {
    pub maintainers: Seq<u64>,
    pub admins: Seq<u64>,
    pub groups: Seq<i64>,
}

impl WhitelistView {
    /// The list that a bot starts with.
    pub open spec fn initial() -> WhitelistView {
        WhitelistView {
            maintainers: seq![DEFAULT_MAINTAINER],
            admins: Seq::<u64>::empty(),
            groups: seq![DEFAULT_GROUP],
        }
    }

    /// A user has access who is a maintainer or an admin.
    pub open spec fn has_access(self, user: u64) -> bool {
        self.maintainers.contains(user) || self.admins.contains(user)
    }

    /// The environment file that keeps this list beside the bot's token:
    /// four lines, each a variable, an equals sign and its value, with the
    /// lists written as numbers between commas. The last line is not ended.
    pub open spec fn env_file(self, token: Seq<char>) -> Seq<char> {
        env_line(TOKEN_KEY@, token) + seq!['\n'] + env_line(
            ADMINS_KEY@,
            join(decimals(self.admins), seq![',']),
        ) + seq!['\n'] + env_line(GROUPS_KEY@, join(decimals(self.groups), seq![','])) + seq!['\n']
            + env_line(MAINTAINERS_KEY@, join(decimals(self.maintainers), seq![',']))
    }
}

/// One line of an environment file: the variable, an equals sign, the value.
pub open spec fn env_line(key: Seq<char>, value: Seq<char>) -> Seq<char> {
    key + seq!['='] + value
}

/// Writes one line of an environment file behind `file`.
fn push_env_line(file: &mut String, key: &str, value: &str)
    ensures
        final(file)@ == old(file)@ + env_line(key@, value@),
{
    proof {
        reveal_strlit("=");
    }
    file.append(key);
    file.append("=");
    file.append(value);
    assert(final(file)@ =~= old(file)@ + env_line(key@, value@));
}

impl View for Whitelist {
    type V = WhitelistView;

    open spec fn view(&self) -> WhitelistView {
        WhitelistView {
            maintainers: self.maintainers@,
            admins: self.admins@,
            groups: self.groups@,
        }
    }
}

/// Whether `x` occurs in `list`.
fn contains<T: Number>(list: &Vec<T>, x: T) -> (found: bool)
    ensures
        found == list@.contains(x),
{
    let mut i: usize = 0;
    while i < list.len()
        invariant
            i <= list.len(),
            forall|k: int| 0 <= k < i ==> list[k] != x,
        decreases list.len() - i,
    {
        let y = list[i];
        if !y.below(x) && !x.below(y) {
            proof {
                T::lemma_value_tells_apart(x, y);
            }
            return true;
        }
        i += 1;
    }
    false
}

/// Copies a list of identifiers.
fn copy_list<T: Number>(list: &Vec<T>) -> (copy: Vec<T>)
    ensures
        copy@ == list@,
{
    let mut copy: Vec<T> = Vec::new();
    let mut i: usize = 0;
    while i < list.len()
        invariant
            i <= list.len(),
            copy@ == list@.take(i as int),
        decreases list.len() - i,
    {
        copy.push(list[i]);
        assert(list@.take(i as int).push(list@[i as int]) =~= list@.take(i + 1));
        i += 1;
    }
    assert(list@.take(list.len() as int) =~= list@);
    copy
}

impl Default for Whitelist {
    fn default() -> (list: Self)
        ensures
            list@ == WhitelistView::initial(),
    {
        Whitelist::new()
    }
}

impl Clone for Whitelist {
    fn clone(&self) -> (copy: Self)
        ensures
            copy@ == self@,
    {
        Whitelist {
            maintainers: copy_list(&self.maintainers),
            admins: copy_list(&self.admins),
            groups: copy_list(&self.groups),
        }
    }
}

impl Whitelist {
    /// The list that a bot starts with: one maintainer, no admins, one
    /// group.
    pub fn new() -> (list: Self)
        ensures
            list@ == WhitelistView::initial(),
    {
        let mut maintainers: Vec<u64> = Vec::new();
        maintainers.push(DEFAULT_MAINTAINER);
        let mut groups: Vec<i64> = Vec::new();
        groups.push(DEFAULT_GROUP);
        let list = Whitelist { maintainers, admins: Vec::new(), groups };
        assert(list@.maintainers =~= seq![DEFAULT_MAINTAINER]);
        assert(list@.groups =~= seq![DEFAULT_GROUP]);
        list
    }

    /// Whether `user` is a maintainer or an admin.
    pub fn has_access(&self, user: u64) -> (allowed: bool)
        ensures
            allowed == self@.has_access(user),
    {
        contains(&self.maintainers, user) || contains(&self.admins, user)
    }

    /// Whether `user` is a maintainer.
    pub fn is_maintainers(&self, user: u64) -> (maintainer: bool)
        ensures
            maintainer == self@.maintainers.contains(user),
    {
        contains(&self.maintainers, user)
    }

    /// Takes the maintainers from `value`, a list such as `123,456,789`.
    /// Without a value the list stays as it is.
    pub fn parse_maintainers(self, value: Option<&str>) -> (list: Self)
        requires
            value matches Some(text) ==> u64_list_of(text@) is Some,
        ensures
            list@ == match value {
                Some(text) => WhitelistView { maintainers: u64_list_of(text@)->0, ..self@ },
                None => self@,
            },
    {
        let mut list = self;
        if let Some(text) = value {
            if let Some(maintainers) = parse_u64_list(text) {
                list.maintainers = maintainers;
            }
        }
        list
    }

    /// Takes the admins from `value`, a list such as `123,456,789`.
    /// Without a value the list stays as it is.
    pub fn parse_admins(self, value: Option<&str>) -> (list: Self)
        requires
            value matches Some(text) ==> u64_list_of(text@) is Some,
        ensures
            list@ == match value {
                Some(text) => WhitelistView { admins: u64_list_of(text@)->0, ..self@ },
                None => self@,
            },
    {
        let mut list = self;
        if let Some(text) = value {
            if let Some(admins) = parse_u64_list(text) {
                list.admins = admins;
            }
        }
        list
    }

    /// Takes the groups from `value`, a list such as `-100123,456`.
    /// Without a value the list stays as it is.
    pub fn parse_groups(self, value: Option<&str>) -> (list: Self)
        requires
            value matches Some(text) ==> i64_list_of(text@) is Some,
        ensures
            list@ == match value {
                Some(text) => WhitelistView { groups: i64_list_of(text@)->0, ..self@ },
                None => self@,
            },
    {
        let mut list = self;
        if let Some(text) = value {
            if let Some(groups) = parse_i64_list(text) {
                list.groups = groups;
            }
        }
        list
    }

    /// The text of the environment file that keeps this list beside the
    /// bot's token.
    pub fn save(&self, token: &str) -> (file: String)
        ensures
            file@ == self@.env_file(token@),
    {
        proof {
            reveal_strlit("\n");
        }
        let mut file = String::new();
        push_env_line(&mut file, TOKEN_KEY, token);
        file.append("\n");
        push_env_line(&mut file, ADMINS_KEY, render_list(&self.admins).as_str());
        file.append("\n");
        push_env_line(&mut file, GROUPS_KEY, render_list(&self.groups).as_str());
        file.append("\n");
        push_env_line(&mut file, MAINTAINERS_KEY, render_list(&self.maintainers).as_str());
        assert(file@ =~= self@.env_file(token@));
        file
    }
}

/// The identifier that was to be taken off a list was not found on it.
#[derive(Clone, Copy, Debug, PartialEq, Eq, Structural)]
pub struct NotListed;

/// Puts `id` on `list` and leaves the list in ascending order.
fn add_sorted<T: Number>(list: &mut Vec<T>, id: T)
    ensures
        sorted(final(list)@),
        final(list)@.to_multiset() == old(list)@.to_multiset().insert(id),
{
    proof {
        to_multiset_build(list@, id);
    }
    list.push(id);
    let ordered = sort(list);
    *list = ordered;
}

/// Takes one `id` off `list`, looking for it by halving.
fn remove_sorted<T: Number>(list: &mut Vec<T>, id: T) -> (taken: Result<(), NotListed>)
    ensures
        taken is Ok ==> without_one(old(list)@, id, final(list)@),
        taken is Err ==> final(list)@ == old(list)@,
        sorted(old(list)@) ==> (taken is Ok <==> old(list)@.contains(id)),
        sorted(old(list)@) ==> sorted(final(list)@),
{
    match find(list, id) {
        Some(i) => {
            list.remove(i);
            Ok(())
        },
        None => Err(NotListed),
    }
}

/// What the bot keeps in memory while it runs: the whitelist and the
/// registry of jobs.
pub struct BotRuntime {
    pub whitelist: Whitelist,
    pub task_pool: TaskPool,
}

impl BotRuntime {
    /// The groups of the whitelist.
    pub fn get_group(&self) -> (groups: Vec<i64>)
        ensures
            groups@ == self.whitelist@.groups,
    {
        copy_list(&self.whitelist.groups)
    }

    /// A runtime with the initial whitelist and no jobs.
    pub fn new() -> (runtime: Self)
        ensures
            runtime.whitelist@ == WhitelistView::initial(),
            runtime.task_pool@ == PoolView::empty(),
    {
        BotRuntime { whitelist: Whitelist::new(), task_pool: TaskPool::new() }
    }

    /// The same runtime with `wt` as its whitelist.
    pub fn whitelist(self, wt: Whitelist) -> (runtime: Self)
        ensures
            runtime.whitelist@ == wt@,
            runtime.task_pool@ == self.task_pool@,
    {
        let mut runtime = self;
        runtime.whitelist = wt;
        runtime
    }

    /// Makes `id` an admin. The admins then stand in ascending order.
    pub fn add_admin(&mut self, id: u64)
        ensures
            sorted(final(self).whitelist@.admins),
            final(self).whitelist@.admins.to_multiset() == old(self).whitelist@.admins.to_multiset().insert(
                id,
            ),
            final(self).whitelist@.maintainers == old(self).whitelist@.maintainers,
            final(self).whitelist@.groups == old(self).whitelist@.groups,
            final(self).task_pool@ == old(self).task_pool@,
    {
        add_sorted(&mut self.whitelist.admins, id);
    }

    /// Takes `id` off the admins. It is looked for by halving, which finds
    /// it in a list in ascending order whenever it is there.
    pub fn del_admin(&mut self, id: u64) -> (taken: Result<(), NotListed>)
        ensures
            taken is Ok ==> without_one(
                old(self).whitelist@.admins,
                id,
                final(self).whitelist@.admins,
            ),
            taken is Err ==> final(self).whitelist@.admins == old(self).whitelist@.admins,
            sorted(old(self).whitelist@.admins) ==> (taken is Ok <==> old(
                self,
            ).whitelist@.admins.contains(id)),
            sorted(old(self).whitelist@.admins) ==> sorted(final(self).whitelist@.admins),
            final(self).whitelist@.maintainers == old(self).whitelist@.maintainers,
            final(self).whitelist@.groups == old(self).whitelist@.groups,
            final(self).task_pool@ == old(self).task_pool@,
    {
        remove_sorted(&mut self.whitelist.admins, id)
    }

    /// Adds the chat `gid` to the groups. The groups then stand in
    /// ascending order.
    pub fn add_group(&mut self, gid: i64)
        ensures
            sorted(final(self).whitelist@.groups),
            final(self).whitelist@.groups.to_multiset() == old(self).whitelist@.groups.to_multiset().insert(
                gid,
            ),
            final(self).whitelist@.maintainers == old(self).whitelist@.maintainers,
            final(self).whitelist@.admins == old(self).whitelist@.admins,
            final(self).task_pool@ == old(self).task_pool@,
    {
        add_sorted(&mut self.whitelist.groups, gid);
    }

    /// Takes the chat `gid` off the groups. It is looked for by halving,
    /// which finds it in a list in ascending order whenever it is there.
    pub fn del_group(&mut self, gid: i64) -> (taken: Result<(), NotListed>)
        ensures
            taken is Ok ==> without_one(
                old(self).whitelist@.groups,
                gid,
                final(self).whitelist@.groups,
            ),
            taken is Err ==> final(self).whitelist@.groups == old(self).whitelist@.groups,
            sorted(old(self).whitelist@.groups) ==> (taken is Ok <==> old(
                self,
            ).whitelist@.groups.contains(gid)),
            sorted(old(self).whitelist@.groups) ==> sorted(final(self).whitelist@.groups),
            final(self).whitelist@.maintainers == old(self).whitelist@.maintainers,
            final(self).whitelist@.admins == old(self).whitelist@.admins,
            final(self).task_pool@ == old(self).task_pool@,
    {
        remove_sorted(&mut self.whitelist.groups, gid)
    }

    /// A copy of the whitelist.
    pub fn copy_whitelist(&self) -> (copy: Whitelist)
        ensures
            copy@ == self.whitelist@,
    {
        self.whitelist.clone()
    }
}

} // verus!
