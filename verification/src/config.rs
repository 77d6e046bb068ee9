//! Start-up configuration: the identifiers of maintainers, admins and groups,
//! each given as a list of numbers separated by commas.

use crate::number::{i64_list_of, parse_i64_list, parse_u64_list, u64_list_of};
use vstd::prelude::*;

verus! {

/// The variable of the environment that holds the bot's token.
pub const TOKEN_KEY: &'static str = "TELOXIDE_TOKEN";

/// The variable of the environment that lists the maintainers.
pub const MAINTAINERS_KEY: &'static str = "NOTIFY_BOT_MAINTAINERS";

/// The variable of the environment that lists the admins.
pub const ADMINS_KEY: &'static str = "NOTIFY_BOT_ADMINS";

/// The variable of the environment that lists the groups.
pub const GROUPS_KEY: &'static str = "NOTIFY_BOT_GROUPS";

/// Identifiers read at start-up.
#[derive(Debug)]
pub struct Config {
    pub maintainers: Vec<u64>,
    pub admins: Vec<u64>,
    pub groups: Vec<i64>,
}

/// Mathematical value of a [`Config`].
pub struct ConfigView {
    pub maintainers: Seq<u64>,
    pub admins: Seq<u64>,
    pub groups: Seq<i64>,
}

impl View for Config {
    type V = ConfigView;

    open spec fn view(&self) -> ConfigView {
        ConfigView { maintainers: self.maintainers@, admins: self.admins@, groups: self.groups@ }
    }
}

impl ConfigView {
    /// The configuration that names nobody.
    pub open spec fn empty() -> ConfigView {
        ConfigView {
            maintainers: Seq::<u64>::empty(),
            admins: Seq::<u64>::empty(),
            groups: Seq::<i64>::empty(),
        }
    }
}

impl Default for Config {
    fn default() -> (config: Self)
        ensures
            config@ == ConfigView::empty(),
    {
        Config { maintainers: Vec::new(), admins: Vec::new(), groups: Vec::new() }
    }
}

impl Config {
    /// A configuration that names nobody.
    pub fn new() -> (config: Self)
        ensures
            config@ == ConfigView::empty(),
    {
        Config { maintainers: Vec::new(), admins: Vec::new(), groups: Vec::new() }
    }

    /// Takes the maintainers from `value`, a list such as `123,456,789`.
    /// Without a value the configuration stays as it is.
    pub fn parse_maintainers(self, value: Option<&str>) -> (config: Self)
        requires
            value matches Some(list) ==> u64_list_of(list@) is Some,
        ensures
            config@ == match value {
                Some(list) => ConfigView { maintainers: u64_list_of(list@)->0, ..self@ },
                None => self@,
            },
    {
        let mut config = self;
        if let Some(list) = value {
            if let Some(maintainers) = parse_u64_list(list) {
                config.maintainers = maintainers;
            }
        }
        config
    }

    /// Takes the admins from `value`, a list such as `123,456,789`.
    /// Without a value the configuration stays as it is.
    pub fn parse_admins(self, value: Option<&str>) -> (config: Self)
        requires
            value matches Some(list) ==> u64_list_of(list@) is Some,
        ensures
            config@ == match value {
                Some(list) => ConfigView { admins: u64_list_of(list@)->0, ..self@ },
                None => self@,
            },
    {
        let mut config = self;
        if let Some(list) = value {
            if let Some(admins) = parse_u64_list(list) {
                config.admins = admins;
            }
        }
        config
    }

    /// Takes the groups from `value`, a list such as `-100123,456`.
    /// Without a value the configuration stays as it is.
    pub fn parse_groups(self, value: Option<&str>) -> (config: Self)
        requires
            value matches Some(list) ==> i64_list_of(list@) is Some,
        ensures
            config@ == match value {
                Some(list) => ConfigView { groups: i64_list_of(list@)->0, ..self@ },
                None => self@,
            },
    {
        let mut config = self;
        if let Some(list) = value {
            if let Some(groups) = parse_i64_list(list) {
                config.groups = groups;
            }
        }
        config
    }
}

} // verus!
