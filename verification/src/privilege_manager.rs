//! Privileges: whether commands run directly, through `sudo`, or not at all.
use vstd::prelude::*;
use crate::text::{concat2, owned, texts};

verus! {

/// What the current user may do.
pub struct PrivilegeManager {
    has_sudo: bool,
    is_root_user: bool,
}

impl PrivilegeManager {
    /// Whether the user is root.
    pub closed spec fn root(&self) -> bool {
        self.is_root_user
    }

    /// Whether the user may use `sudo` (root always may).
    pub closed spec fn sudo(&self) -> bool {
        self.has_sudo
    }

    /// The privileges found: root, or else whether `sudo` works without a
    /// password.
    pub fn from_checks(is_root: bool, sudo_works: bool) -> (r: Self)
        ensures
            r.root() == is_root,
            r.sudo() == (is_root || sudo_works),
    {
        PrivilegeManager { has_sudo: if is_root { true } else { sudo_works }, is_root_user: is_root }
    }

    /// Whether the cached `sudo` credentials are to be refreshed: only for a
    /// user who is not root but may use `sudo`.
    pub fn refreshes_credentials(&self) -> (r: bool)
        ensures
            r == (self.sudo() && !self.root()),
    {
        self.has_sudo && !self.is_root_user
    }

    /// The command line that runs `command` with `args` with privileges:
    /// directly for root, through `sudo` for a user who may use it; for
    /// another user, the refusal.
    pub fn privileged_command(&self, command: &str, args: &Vec<String>) -> (r: Result<(String, Vec<String>), String>)
        ensures
            match r {
                Ok((p, a)) => if self.root() {
                    p@ == command@ && texts(a@) == texts(args@)
                } else {
                    self.sudo() && p@ == "sudo"@ && texts(a@) == seq![command@] + texts(args@)
                },
                Err(e) => !self.root() && !self.sudo() && e@ == "Insufficient privileges to execute command"@,
            },
    {
        if self.is_root_user {
            Ok((owned(command), args.clone()))
        } else if self.has_sudo {
            let mut a: Vec<String> = Vec::new();
            a.push(owned(command));
            let mut i: usize = 0;
            while i < args.len()
                invariant
                    i <= args@.len(),
                    texts(a@) == seq![command@] + texts(args@.take(i as int)),
                decreases args.len() - i,
            {
                let ghost before = a@;
                let x = args[i].clone();
                a.push(x);
                assert(texts(a@) =~= texts(before).push(args@[i as int]@));
                assert(texts(args@.take(i + 1)) =~= texts(args@.take(i as int)).push(args@[i as int]@));
                assert(texts(a@) =~= seq![command@] + texts(args@.take(i + 1)));
                i = i + 1;
            }
            assert(args@.take(args@.len() as int) =~= args@);
            Ok((owned("sudo"), a))
        } else {
            Err(owned("Insufficient privileges to execute command"))
        }
    }

    /// The complaint when a privileged command fails: as root the command
    /// itself failed, otherwise the `sudo` command did.
    pub fn failure_message(&self, stderr: &str) -> (r: String)
        ensures
            r@ == (if self.root() { "Command failed: "@ } else { "Sudo command failed: "@ }) + stderr@,
    {
        if self.is_root_user {
            concat2("Command failed: ", stderr)
        } else {
            concat2("Sudo command failed: ", stderr)
        }
    }
}

} // verus!
