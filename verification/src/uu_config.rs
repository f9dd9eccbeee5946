//! What a unit file says in its `[Unit]` and `[Install]` sections.
use crate::job_entry::JobMode;
use vstd::prelude::*;

verus! {

/// A unit's description.
#[allow(non_snake_case)]
pub struct UeConfig {
    pub Unit: UeConfigUnit,
    pub Install: UeConfigInstall,
}

/// The `[Unit]` section.
#[allow(non_snake_case)]
pub struct UeConfigUnit {
    pub Description: String,
    pub Documentation: String,
    pub AllowIsolate: bool,
    pub IgnoreOnIsolate: bool,
    pub DefaultDependencies: bool,
    pub OnFailureJobMode: JobMode,
    pub Wants: Vec<String>,
    pub Requires: Vec<String>,
    pub Before: Vec<String>,
    pub After: Vec<String>,
    pub ConditionFileNotEmpty: String,
    pub ConditionNeedsUpdate: String,
    pub ConditionPathExists: String,
    pub AssertPathExists: String,
}

/// The `[Install]` section.
#[allow(non_snake_case)]
pub struct UeConfigInstall {
    pub Alias: String,
    pub WantedBy: Vec<String>,
    pub RequiredBy: Vec<String>,
    pub Also: String,
    pub DefaultInstance: String,
}

impl Default for UeConfigUnit {
    /// Nothing is set; dependencies are the default ones and a failure
    /// replaces what stands in its way.
    fn default() -> (r: UeConfigUnit)
        ensures
            r.Description@.len() == 0,
            r.Documentation@.len() == 0,
            !r.AllowIsolate,
            !r.IgnoreOnIsolate,
            r.DefaultDependencies,
            r.OnFailureJobMode == JobMode::JobReplace,
            r.Wants@.len() == 0,
            r.Requires@.len() == 0,
            r.Before@.len() == 0,
            r.After@.len() == 0,
            r.ConditionFileNotEmpty@.len() == 0,
            r.ConditionNeedsUpdate@.len() == 0,
            r.ConditionPathExists@.len() == 0,
            r.AssertPathExists@.len() == 0,
    {
        UeConfigUnit {
            Description: String::new(),
            Documentation: String::new(),
            AllowIsolate: false,
            IgnoreOnIsolate: false,
            DefaultDependencies: true,
            OnFailureJobMode: JobMode::JobReplace,
            Wants: Vec::new(),
            Requires: Vec::new(),
            Before: Vec::new(),
            After: Vec::new(),
            ConditionFileNotEmpty: String::new(),
            ConditionNeedsUpdate: String::new(),
            ConditionPathExists: String::new(),
            AssertPathExists: String::new(),
        }
    }
}

impl Default for UeConfigInstall {
    fn default() -> (r: UeConfigInstall)
        ensures
            r.Alias@.len() == 0,
            r.WantedBy@.len() == 0,
            r.RequiredBy@.len() == 0,
            r.Also@.len() == 0,
            r.DefaultInstance@.len() == 0,
    {
        UeConfigInstall {
            Alias: String::new(),
            WantedBy: Vec::new(),
            RequiredBy: Vec::new(),
            Also: String::new(),
            DefaultInstance: String::new(),
        }
    }
}

impl Default for UeConfig {
    fn default() -> (r: UeConfig)
        ensures
            r.Unit.Wants@.len() == 0,
            r.Unit.Requires@.len() == 0,
            r.Unit.After@.len() == 0,
            r.Unit.Before@.len() == 0,
            !r.Unit.IgnoreOnIsolate,
            r.Unit.DefaultDependencies,
    {
        UeConfig { Unit: UeConfigUnit::default(), Install: UeConfigInstall::default() }
    }
}

/// Appends copies of `names` to `list`.
fn push_all(list: &mut Vec<String>, names: &Vec<String>)
    ensures
        final(list)@ == old(list)@ + names@,
{
    let mut i: usize = 0;
    while i < names.len()
        invariant
            i <= names.len(),
            list@ == old(list)@ + names@.take(i as int),
        decreases names.len() - i,
    {
        list.push(names[i].clone());
        proof {
            assert(names@.take(i + 1) =~= names@.take(i as int).push(names@[i as int]));
            assert(list@ =~= old(list)@ + names@.take(i + 1));
        }
        i += 1;
    }
    proof {
        assert(names@.take(names@.len() as int) =~= names@);
    }
}

impl UeConfig {
    /// The description that results from what the unit's fragment files
    /// say and from its drop-in directories: each unit named in the
    /// `wants` directory is wanted and ordered before this one, and each
    /// unit named in the `requires` directory is required and ordered
    /// before this one.
    pub fn load_fragment_and_dropin(
        &self,
        fragment: UeConfig,
        dropin_wants: &Vec<String>,
        dropin_requires: &Vec<String>,
    ) -> (configer: UeConfig)
        ensures
            configer.Unit.Wants@ == fragment.Unit.Wants@ + dropin_wants@,
            configer.Unit.Requires@ == fragment.Unit.Requires@ + dropin_requires@,
            configer.Unit.After@ == fragment.Unit.After@ + dropin_wants@ + dropin_requires@,
            configer.Unit.Before == fragment.Unit.Before,
            configer.Unit.Description == fragment.Unit.Description,
            configer.Unit.Documentation == fragment.Unit.Documentation,
            configer.Unit.AllowIsolate == fragment.Unit.AllowIsolate,
            configer.Unit.IgnoreOnIsolate == fragment.Unit.IgnoreOnIsolate,
            configer.Unit.DefaultDependencies == fragment.Unit.DefaultDependencies,
            configer.Unit.OnFailureJobMode == fragment.Unit.OnFailureJobMode,
            configer.Unit.ConditionFileNotEmpty == fragment.Unit.ConditionFileNotEmpty,
            configer.Unit.ConditionNeedsUpdate == fragment.Unit.ConditionNeedsUpdate,
            configer.Unit.ConditionPathExists == fragment.Unit.ConditionPathExists,
            configer.Unit.AssertPathExists == fragment.Unit.AssertPathExists,
            configer.Install == fragment.Install,
    {
        let mut configer = fragment;
        push_all(&mut configer.Unit.Wants, dropin_wants);
        push_all(&mut configer.Unit.After, dropin_wants);
        push_all(&mut configer.Unit.Requires, dropin_requires);
        push_all(&mut configer.Unit.After, dropin_requires);
        configer
    }
}

} // verus!
