use vstd::prelude::*;
use vstd::string::StringExecFns;
use crate::Cfg;

verus! {

/// `cd <dir> && <editor> <target>`.
pub open spec fn edit_command(dir: Seq<char>, editor: Seq<char>, target: Seq<char>) -> Seq<char> {
    "cd "@ + dir + " && "@ + editor + " "@ + target
}

fn edit(dir: &str, editor: &str, target: &str) -> (r: String)
    ensures
        r@ == edit_command(dir@, editor@, target@),
{
    let mut r = String::from_str("cd ");
    r.append(dir);
    r.append(" && ");
    r.append(editor);
    r.append(" ");
    r.append(target);
    proof {
        assert(r@ =~= edit_command(dir@, editor@, target@));
    }
    r
}

/// The shell command that opens the todo list.
pub fn todo(cfg: &Cfg) -> (r: String)
    ensures
        r@ == edit_command(cfg.path@, cfg.editor@, "todo.md"@),
{
    edit(cfg.path.as_str(), cfg.editor.as_str(), "todo.md")
}

/// The shell command that opens the editor on the notes directory.
pub fn notes(cfg: &Cfg) -> (r: String)
    ensures
        r@ == edit_command(cfg.path@ + "notes"@, cfg.editor@, "."@),
{
    let mut dir = cfg.path.clone();
    dir.append("notes");
    edit(dir.as_str(), cfg.editor.as_str(), ".")
}

/// The shell command that opens the index page.
pub fn home(cfg: &Cfg) -> (r: String)
    ensures
        r@ == edit_command(cfg.path@, cfg.editor@, "index.md"@),
{
    edit(cfg.path.as_str(), cfg.editor.as_str(), "index.md")
}

/// The shell command that opens `file` at `line`.
pub fn go(file: &str, line: &str, cfg: &Cfg) -> (r: String)
    ensures
        r@ == edit_command(cfg.path@, cfg.editor@, "+"@ + line@ + " "@ + file@),
{
    let mut target = String::from_str("+");
    target.append(line);
    target.append(" ");
    target.append(file);
    proof {
        assert(target@ =~= "+"@ + line@ + " "@ + file@);
    }
    edit(cfg.path.as_str(), cfg.editor.as_str(), target.as_str())
}

/// The shell command that opens the memo file; with a heading, the command first
/// appends the heading to the file.
pub fn memo(heading: Option<&str>, cfg: &Cfg) -> (r: String)
    ensures
        heading is None ==> r@ == edit_command(cfg.path@, cfg.editor@, "memo.md"@),
        heading matches Some(h) ==> r@ == "echo \""@ + h@ + "\" >> "@ + cfg.path@ + "memo.md"@
            + " && "@ + edit_command(cfg.path@, cfg.editor@, "memo.md"@),
{
    let open = edit(cfg.path.as_str(), cfg.editor.as_str(), "memo.md");
    match heading {
        None => open,
        Some(h) => {
            let mut r = String::from_str("echo \"");
            r.append(h);
            r.append("\" >> ");
            r.append(cfg.path.as_str());
            r.append("memo.md");
            r.append(" && ");
            r.append(open.as_str());
            proof {
                assert(r@ =~= "echo \""@ + h@ + "\" >> "@ + cfg.path@ + "memo.md"@ + " && "@
                    + edit_command(cfg.path@, cfg.editor@, "memo.md"@));
            }
            r
        },
    }
}

} // verus!
