//! Descriptions of child processes.
use crate::bytes::{bytes_of, copy_bytes, same_bytes};
use vstd::prelude::*;

verus! {

/// A variable that is set, or removed where there is no value.
pub struct EnvChange {
    pub key: Vec<u8>,
    pub value: Option<Vec<u8>>,
}

/// What a change of the environment says.
#[verifier::ext_equal]
pub struct EnvView {
    pub key: Seq<u8>,
    pub value: Option<Seq<u8>>,
}

impl View for EnvChange {
    type V = EnvView;

    open spec fn view(&self) -> EnvView {
        EnvView { key: self.key@, value: crate::bytes::optional_bytes(self.value) }
    }
}

/// What changes of the environment say.
pub open spec fn env_views(changes: Seq<EnvChange>) -> Seq<EnvView> {
    Seq::new(changes.len(), |i: int| changes[i]@)
}

/// The value of a variable after changes, made in order, to an environment in
/// which it has an inherited value.
pub open spec fn effective(changes: Seq<EnvView>, key: Seq<u8>, inherited: Option<Seq<u8>>) -> Option<
    Seq<u8>,
>
    decreases changes.len(),
{
    if changes.len() == 0 {
        inherited
    } else if changes.last().key == key {
        changes.last().value
    } else {
        effective(changes.drop_last(), key, inherited)
    }
}

/// The value of a variable after changes of the environment.
pub fn effective_value(changes: &Vec<EnvChange>, key: &Vec<u8>, inherited: Option<Vec<u8>>) -> (value:
    Option<Vec<u8>>)
    ensures
        crate::bytes::optional_bytes(value) == effective(
            env_views(changes@),
            key@,
            crate::bytes::optional_bytes(inherited),
        ),
{
    let ghost all = env_views(changes@);
    let ghost given = crate::bytes::optional_bytes(inherited);
    let mut left: usize = changes.len();
    assert(all.take(left as int) =~= all);
    while left > 0
        invariant
            left <= changes.len(),
            all == env_views(changes@),
            given == crate::bytes::optional_bytes(inherited),
            effective(all.take(left as int), key@, given) == effective(all, key@, given),
        decreases left,
    {
        proof {
            assert(all.take(left as int).drop_last() =~= all.take(left - 1));
            assert(all.take(left as int).last() == changes@[left - 1]@);
        }
        if same_bytes(&changes[left - 1].key, key) {
            return match &changes[left - 1].value {
                Some(value) => Some(copy_bytes(value)),
                None => None,
            };
        }
        left = left - 1;
    }
    inherited
}

/// A process to start. Its input is empty, and its output goes nowhere unless
/// it is inherited.
pub struct CommandPlan {
    pub program: Vec<u8>,
    pub arguments: Vec<Vec<u8>>,
    pub current_dir: Option<Vec<u8>>,
    pub inherit_stdout: bool,
    pub inherit_stderr: bool,
    pub environment: Vec<EnvChange>,
}

/// What the description of a process says.
#[verifier::ext_equal]
pub struct CommandPlanView {
    pub program: Seq<u8>,
    pub arguments: Seq<Seq<u8>>,
    pub current_dir: Option<Seq<u8>>,
    pub inherit_stdout: bool,
    pub inherit_stderr: bool,
    pub environment: Seq<EnvView>,
}

impl View for CommandPlan {
    type V = CommandPlanView;

    open spec fn view(&self) -> CommandPlanView {
        CommandPlanView {
            program: self.program@,
            arguments: crate::bytes::byte_strings(self.arguments@),
            current_dir: crate::bytes::optional_bytes(self.current_dir),
            inherit_stdout: self.inherit_stdout,
            inherit_stderr: self.inherit_stderr,
            environment: env_views(self.environment@),
        }
    }
}

impl CommandPlanView {
    /// Set a variable.
    pub open spec fn env(self, key: Seq<char>, value: Seq<u8>) -> Self {
        CommandPlanView {
            environment: self.environment.push(
                EnvView { key: crate::bytes::encoded(key), value: Some(value) },
            ),
            ..self
        }
    }

    /// Remove a variable.
    pub open spec fn env_remove(self, key: Seq<char>) -> Self {
        CommandPlanView {
            environment: self.environment.push(
                EnvView { key: crate::bytes::encoded(key), value: None },
            ),
            ..self
        }
    }

    /// The value that a variable has in the process.
    pub open spec fn variable(self, key: Seq<char>, inherited: Option<Seq<u8>>) -> Option<Seq<u8>> {
        effective(self.environment, crate::bytes::encoded(key), inherited)
    }
}

impl CommandPlan {
    /// Set a variable for the process.
    pub fn env(&mut self, key: &str, value: Vec<u8>)
        ensures
            final(self)@ == old(self)@.env(key@, value@),
    {
        self.environment.push(EnvChange { key: bytes_of(key), value: Some(value) });
        assert(self@ =~= old(self)@.env(key@, value@));
    }

    /// Set a variable for the process to a text.
    pub fn env_text(&mut self, key: &str, value: &str)
        ensures
            final(self)@ == old(self)@.env(key@, crate::bytes::encoded(value@)),
    {
        self.env(key, bytes_of(value));
    }

    /// Remove a variable that the process would inherit.
    pub fn env_remove(&mut self, key: &str)
        ensures
            final(self)@ == old(self)@.env_remove(key@),
    {
        self.environment.push(EnvChange { key: bytes_of(key), value: None });
        assert(self@ =~= old(self)@.env_remove(key@));
    }
}

} // verus!
