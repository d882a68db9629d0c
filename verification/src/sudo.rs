//! Commands that need elevated rights on Linux. They are collected and
//! then run together through one privilege-elevation helper, so that the
//! user is asked once.
use crate::error::{fail, FormattedError};
use crate::fslog::FsSnapshot;
use vstd::prelude::*;

verus! {

/// One command with its arguments.
#[derive(Clone, Debug)]
pub struct SudoCommand {
    pub command: String,
    pub args: Vec<String>,
}

/// The commands collected so far.
#[derive(Clone, Debug)]
pub struct LinuxSudo {
    pub commands_buffer: Vec<SudoCommand>,
}

/// What is run to carry out the collected commands.
#[derive(Clone, Debug)]
pub struct SudoInvocation {
    /// The privilege-elevation helper.
    pub helper: String,
    /// The shell command line that the helper runs through `sh -c`.
    pub megacommand: String,
}

/// The texts that a list of strings holds.
pub open spec fn texts(v: Seq<String>) -> Seq<Seq<char>> {
    Seq::new(v.len(), |i: int| v[i]@)
}

/// The words of one command: its name and its arguments.
pub open spec fn command_words(cmd: SudoCommand) -> Seq<Seq<char>> {
    seq![cmd.command@] + texts(cmd.args@)
}

/// The words of the first `n` commands, with `&&` between one command and
/// the next.
pub open spec fn words_upto(cmds: Seq<SudoCommand>, n: int) -> Seq<Seq<char>>
    decreases n,
{
    if n <= 0 {
        Seq::empty()
    } else if n == 1 {
        command_words(cmds[0])
    } else {
        words_upto(cmds, n - 1) + seq!["&&"@] + command_words(cmds[n - 1])
    }
}

/// `words` with one space between each two.
pub open spec fn join_words(words: Seq<Seq<char>>) -> Seq<char>
    decreases words.len(),
{
    if words.len() == 0 {
        Seq::empty()
    } else if words.len() == 1 {
        words[0]
    } else {
        join_words(words.drop_last()) + seq![' '] + words.last()
    }
}

/// The helpers that are looked for, in this order.
pub open spec fn helper_candidates() -> Seq<Seq<char>> {
    seq!["/usr/bin/pkexec"@, "/usr/bin/kdesudo"@, "/usr/bin/gksudo"@]
}

/// The first helper that `snapshot` shows.
pub open spec fn first_helper(snapshot: FsSnapshot) -> Option<Seq<char>> {
    if snapshot.exists_spec(helper_candidates()[0]) {
        Some(helper_candidates()[0])
    } else if snapshot.exists_spec(helper_candidates()[1]) {
        Some(helper_candidates()[1])
    } else if snapshot.exists_spec(helper_candidates()[2]) {
        Some(helper_candidates()[2])
    } else {
        None
    }
}

/// `words` with one space between each two.
pub fn join_with_spaces(words: &Vec<String>) -> (r: String)
    ensures
        r@ == join_words(texts(words@)),
{
    let mut r = String::new();
    let mut i: usize = 0;
    proof {
        assert(texts(words@).take(0) =~= Seq::<Seq<char>>::empty());
    }
    while i < words.len()
        invariant
            0 <= i <= words.len(),
            r@ == join_words(texts(words@).take(i as int)),
        decreases words.len() - i,
    {
        proof {
            let t = texts(words@).take(i as int + 1);
            assert(t.drop_last() =~= texts(words@).take(i as int));
            assert(t.last() == words@[i as int]@);
            if i == 0 {
                assert(r@ =~= Seq::<char>::empty());
                assert(r@ + words@[i as int]@ =~= words@[i as int]@);
            }
        }
        if i > 0 {
            r.push(' ');
        }
        r.append(words[i].as_str());
        i += 1;
    }
    proof {
        assert(texts(words@).take(i as int) =~= texts(words@));
    }
    r
}

impl LinuxSudo {
    /// No command yet.
    pub fn new() -> (r: Self)
        ensures
            r.commands_buffer@.len() == 0,
    {
        LinuxSudo { commands_buffer: Vec::new() }
    }

    /// Adds a command.
    pub fn command(&mut self, command: String, args: Vec<String>)
        ensures
            final(self).commands_buffer@ == old(self).commands_buffer@.push(
                SudoCommand { command, args },
            ),
    {
        self.commands_buffer.push(SudoCommand { command, args });
    }

    /// Adds the command that puts the file staged at `staged_path` into
    /// place as `final_path`.
    pub fn write_file(&mut self, staged_path: String, final_path: String)
        ensures
            final(self).commands_buffer@.len() == old(self).commands_buffer@.len() + 1,
            final(self).commands_buffer@.drop_last() == old(self).commands_buffer@,
            final(self).commands_buffer@.last().command@ == "cp"@,
            texts(final(self).commands_buffer@.last().args@) == seq![staged_path@, final_path@],
    {
        let mut args: Vec<String> = Vec::new();
        args.push(staged_path);
        args.push(final_path);
        proof {
            assert(texts(args@) =~= seq![staged_path@, final_path@]);
        }
        let ghost before = self.commands_buffer@;
        self.commands_buffer.push(SudoCommand { command: "cp".to_string(), args });
        proof {
            assert(self.commands_buffer@.drop_last() =~= before);
        }
    }

    /// The words of all collected commands, with `&&` between one command
    /// and the next.
    pub fn words(&self) -> (r: Vec<String>)
        ensures
            texts(r@) == words_upto(self.commands_buffer@, self.commands_buffer@.len() as int),
    {
        let mut r: Vec<String> = Vec::new();
        let mut i: usize = 0;
        proof {
            assert(texts(r@) =~= Seq::empty());
        }
        while i < self.commands_buffer.len()
            invariant
                0 <= i <= self.commands_buffer.len(),
                texts(r@) == words_upto(self.commands_buffer@, i as int),
            decreases self.commands_buffer.len() - i,
        {
            let cmd = &self.commands_buffer[i];
            let ghost start = texts(r@);
            if i > 0 {
                r.push("&&".to_string());
            }
            r.push(cmd.command.clone());
            let ghost head = texts(r@);
            proof {
                if i > 0 {
                    assert(head =~= start + seq!["&&"@] + seq![cmd.command@]);
                } else {
                    assert(head =~= seq![cmd.command@]);
                }
            }
            let mut j: usize = 0;
            while j < cmd.args.len()
                invariant
                    0 <= j <= cmd.args.len(),
                    texts(r@) == head + texts(cmd.args@).take(j as int),
                decreases cmd.args.len() - j,
            {
                let ghost before = r@;
                r.push(cmd.args[j].clone());
                proof {
                    assert(texts(r@) =~= texts(before).push(cmd.args@[j as int]@));
                    assert(texts(cmd.args@).take(j as int + 1) =~= texts(cmd.args@).take(
                        j as int,
                    ).push(cmd.args@[j as int]@));
                }
                j += 1;
            }
            proof {
                assert(texts(cmd.args@).take(j as int) =~= texts(cmd.args@));
                assert(texts(r@) =~= words_upto(self.commands_buffer@, i as int + 1));
            }
            i += 1;
        }
        r
    }

    /// What is run to carry out the collected commands: the first helper
    /// that `snapshot` shows, with all commands joined by `&&`. Fails
    /// where there is no command, and, as a missing-privilege failure,
    /// where there is no helper.
    pub fn flush(&self, snapshot: &FsSnapshot) -> (r: Result<SudoInvocation, FormattedError>)
        ensures
            r is Ok <==> self.commands_buffer@.len() > 0 && first_helper(*snapshot) is Some,
            r is Ok ==> r->Ok_0.helper@ == first_helper(*snapshot)->Some_0 && r->Ok_0.megacommand@
                == join_words(
                words_upto(self.commands_buffer@, self.commands_buffer@.len() as int),
            ),
            r is Err ==> r->Err_0.is_missing_sudo == (self.commands_buffer@.len() > 0),
    {
        if self.commands_buffer.len() == 0 {
            return Err(fail("Sudo cmdbuffer cannot be length 0"));
        }
        let helper: &str = if snapshot.path_exists("/usr/bin/pkexec") {
            "/usr/bin/pkexec"
        } else if snapshot.path_exists("/usr/bin/kdesudo") {
            "/usr/bin/kdesudo"
        } else if snapshot.path_exists("/usr/bin/gksudo") {
            "/usr/bin/gksudo"
        } else {
            return Err(FormattedError::from_missing_sudo("No Sudo Found".to_string()));
        };
        let words = self.words();
        let megacommand = join_with_spaces(&words);
        Ok(SudoInvocation { helper: helper.to_owned(), megacommand })
    }
}

/// The result of running the collected commands: a helper that reports
/// failure is taken as missing privilege.
pub fn sudo_outcome(succeeded: bool) -> (r: Result<(), FormattedError>)
    ensures
        r is Ok <==> succeeded,
        r is Err ==> r->Err_0.is_missing_sudo,
{
    if succeeded {
        Ok(())
    } else {
        Err(FormattedError::from_missing_sudo("Sudo command threw!".to_string()))
    }
}

} // verus!
