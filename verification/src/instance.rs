//! Instance configuration and the account data it launches under.
use vstd::prelude::*;

verus! {

pub enum InstanceType {
    CLIENT,
    SERVER,
}

pub enum InstanceFlavor {
    FABRIC,
    FORGE,
    VANILLA,
}

/// One configured game installation.
pub struct Instance {
    pub version: u8,
    pub tags: Option<Vec<String>>,
    pub name: String,
    pub kind: InstanceType,
    pub flavor: InstanceFlavor,
    pub selected_account: String,
    pub jvm_arguments: Option<String>,
}

/// A stored account and its profiles.
pub struct Account {
    pub access_token: String,
    pub active_profile: String,
    pub profiles: Vec<Profile>,
    pub user: User,
    pub username: String,
}

pub struct Profile {
    pub id: String,
    pub legacy: bool,
    pub name: String,
}

pub struct User {
    pub id: String,
}

impl Instance {
    /// A fresh client instance of the vanilla flavor.
    pub fn new(name: &str, selected_account: &str) -> (r: Instance)
        ensures
            r.version == 1,
            r.tags is None,
            r.name@ == name@,
            r.kind is CLIENT,
            r.flavor is VANILLA,
            r.selected_account@ == selected_account@,
            r.jvm_arguments is None,
    {
        Instance {
            version: 1,
            tags: None,
            name: String::from_str(name),
            kind: InstanceType::CLIENT,
            flavor: InstanceFlavor::VANILLA,
            selected_account: String::from_str(selected_account),
            jvm_arguments: None,
        }
    }

    /// Consumes the instance; when it has no tag list yet, builds one
    /// holding the tag, which is then dropped with the instance.
    pub fn add_tag(self, tag: String) {
        match self.tags {
            Some(mut tags) => {
                tags.push(tag);
            },
            None => {
                let mut tags: Vec<String> = Vec::new();
                tags.push(tag);
            },
        }
    }

    /// The instance with its type replaced.
    pub fn with_type(self, kind: InstanceType) -> (r: Instance)
        ensures
            r.kind == kind,
            r.version == self.version,
            r.tags == self.tags,
            r.name == self.name,
            r.flavor == self.flavor,
            r.selected_account == self.selected_account,
            r.jvm_arguments == self.jvm_arguments,
    {
        Instance { kind, ..self }
    }

    /// The instance with its flavor replaced.
    pub fn with_flavor(self, flavor: InstanceFlavor) -> (r: Instance)
        ensures
            r.flavor == flavor,
            r.version == self.version,
            r.tags == self.tags,
            r.name == self.name,
            r.kind == self.kind,
            r.selected_account == self.selected_account,
            r.jvm_arguments == self.jvm_arguments,
    {
        Instance { flavor, ..self }
    }

    /// The instance with its selected account replaced.
    pub fn with_account(self, selected_account: String) -> (r: Instance)
        ensures
            r.selected_account == selected_account,
            r.version == self.version,
            r.tags == self.tags,
            r.name == self.name,
            r.kind == self.kind,
            r.flavor == self.flavor,
            r.jvm_arguments == self.jvm_arguments,
    {
        Instance { selected_account, ..self }
    }

    /// The instance with its JVM arguments set.
    pub fn with_jvm_arguments(self, jvm_arguments: String) -> (r: Instance)
        ensures
            r.jvm_arguments == Some(jvm_arguments),
            r.version == self.version,
            r.tags == self.tags,
            r.name == self.name,
            r.kind == self.kind,
            r.flavor == self.flavor,
            r.selected_account == self.selected_account,
    {
        Instance { jvm_arguments: Some(jvm_arguments), ..self }
    }
}

} // verus!
