//! Available commands and autocomplete logic.
//!
//! Suggestions are ranked: exact name match first, then exact alias match,
//! name prefix, alias prefix, name substring, alias substring. Within one
//! rank, commands keep their declaration order.

use vstd::prelude::*;
use crate::strutil::{chars_contains, chars_eq, chars_starts_with, contains_seq, is_prefix_of,
    string_chars};
use crate::jira_query::{lowercased, lower_of};

verus! {

/// One command of the application.
#[derive(Debug, Clone)]
pub struct Command {
    pub name: String,
    pub aliases: Vec<String>,
    pub description: String,
}

/// Mathematical image of a [`Command`].
#[verifier::ext_equal]
pub struct CommandView {
    pub name: Seq<char>,
    pub aliases: Seq<Seq<char>>,
    pub description: Seq<char>,
}

impl View for Command {
    type V = CommandView;

    open spec fn view(&self) -> CommandView {
        CommandView {
            name: self.name@,
            aliases: self.aliases.deep_view(),
            description: self.description@,
        }
    }
}

impl DeepView for Command {
    type V = CommandView;

    open spec fn deep_view(&self) -> CommandView {
        self.view()
    }
}

/// The commands of the application, in declaration order.
pub open spec fn spec_all_commands() -> Seq<CommandView> {
    seq![
        CommandView {
            name: "issues"@,
            aliases: seq!["i"@, "issue"@],
            description: "Browse project issues"@,
        },
        CommandView {
            name: "boards"@,
            aliases: seq!["b"@, "board"@],
            description: "View agile boards"@,
        },
        CommandView {
            name: "epics"@,
            aliases: seq!["e"@, "epic"@],
            description: "Browse epics"@,
        },
        CommandView {
            name: "searches"@,
            aliases: seq!["s"@, "search"@, "filters"@],
            description: "Saved searches/filters"@,
        },
        CommandView { name: "quit"@, aliases: seq!["q"@, "exit"@], description: "Exit j9s"@ },
    ]
}

fn command(name: &str, aliases: Vec<String>, description: &str) -> (r: Command)
    ensures
        r@ == (CommandView {
            name: name@,
            aliases: aliases.deep_view(),
            description: description@,
        }),
{
    let r = Command { name: name.to_owned(), aliases, description: description.to_owned() };
    proof {
        assert(r@ =~= CommandView {
            name: name@,
            aliases: aliases.deep_view(),
            description: description@,
        });
    }
    r
}

fn two(a: &str, b: &str) -> (r: Vec<String>)
    ensures
        r.deep_view() =~= seq![a@, b@],
{
    let mut r: Vec<String> = Vec::new();
    r.push(a.to_owned());
    r.push(b.to_owned());
    proof {
        assert(r.deep_view() =~= seq![a@, b@]);
    }
    r
}

fn three(a: &str, b: &str, c: &str) -> (r: Vec<String>)
    ensures
        r.deep_view() =~= seq![a@, b@, c@],
{
    let mut r: Vec<String> = Vec::new();
    r.push(a.to_owned());
    r.push(b.to_owned());
    r.push(c.to_owned());
    proof {
        assert(r.deep_view() =~= seq![a@, b@, c@]);
    }
    r
}

/// All available commands.
pub fn all_commands() -> (r: Vec<Command>)
    ensures
        r.deep_view() == spec_all_commands(),
{
    let mut r: Vec<Command> = Vec::new();
    r.push(command("issues", two("i", "issue"), "Browse project issues"));
    r.push(command("boards", two("b", "board"), "View agile boards"));
    r.push(command("epics", two("e", "epic"), "Browse epics"));
    r.push(command("searches", three("s", "search", "filters"), "Saved searches/filters"));
    r.push(command("quit", two("q", "exit"), "Exit j9s"));
    proof {
        assert(r.deep_view() =~= spec_all_commands());
    }
    r
}

/// The rank of a command for a (lowercased, non-empty) query, lower is
/// better; `None` when the command does not match at all.
pub open spec fn spec_rank(c: CommandView, q: Seq<char>) -> Option<int> {
    if c.name == q {
        Some(0)
    } else if exists|j: int| 0 <= j < c.aliases.len() && #[trigger] c.aliases[j] == q {
        Some(1)
    } else if is_prefix_of(q, c.name) {
        Some(2)
    } else if exists|j: int|
        0 <= j < c.aliases.len() && is_prefix_of(q, #[trigger] c.aliases[j]) {
        Some(3)
    } else if contains_seq(c.name, q) {
        Some(4)
    } else if exists|j: int|
        0 <= j < c.aliases.len() && contains_seq(#[trigger] c.aliases[j], q) {
        Some(5)
    } else {
        None
    }
}

fn any_alias_eq(aliases: &Vec<String>, q: &Vec<char>) -> (r: bool)
    ensures
        r == exists|j: int|
            0 <= j < aliases.deep_view().len() && #[trigger] aliases.deep_view()[j] == q@,
{
    let n = aliases.len();
    let mut i: usize = 0;
    while i < n
        invariant
            n == aliases@.len(),
            0 <= i <= n,
            forall|j: int| 0 <= j < i ==> #[trigger] aliases.deep_view()[j] != q@,
        decreases n - i,
    {
        let a = string_chars(aliases[i].as_str());
        if chars_eq(&a, q) {
            proof {
                assert(aliases.deep_view()[i as int] == q@);
            }
            return true;
        }
        i += 1;
    }
    false
}

fn any_alias_prefix(aliases: &Vec<String>, q: &Vec<char>) -> (r: bool)
    ensures
        r == exists|j: int|
            0 <= j < aliases.deep_view().len() && is_prefix_of(
                q@,
                #[trigger] aliases.deep_view()[j],
            ),
{
    let n = aliases.len();
    let mut i: usize = 0;
    while i < n
        invariant
            n == aliases@.len(),
            0 <= i <= n,
            forall|j: int| 0 <= j < i ==> !is_prefix_of(q@, #[trigger] aliases.deep_view()[j]),
        decreases n - i,
    {
        let a = string_chars(aliases[i].as_str());
        if chars_starts_with(&a, q) {
            proof {
                assert(is_prefix_of(q@, aliases.deep_view()[i as int]));
            }
            return true;
        }
        i += 1;
    }
    false
}

fn any_alias_contains(aliases: &Vec<String>, q: &Vec<char>) -> (r: bool)
    ensures
        r == exists|j: int|
            0 <= j < aliases.deep_view().len() && contains_seq(
                #[trigger] aliases.deep_view()[j],
                q@,
            ),
{
    let n = aliases.len();
    let mut i: usize = 0;
    while i < n
        invariant
            n == aliases@.len(),
            0 <= i <= n,
            forall|j: int| 0 <= j < i ==> !contains_seq(#[trigger] aliases.deep_view()[j], q@),
        decreases n - i,
    {
        let a = string_chars(aliases[i].as_str());
        if chars_contains(&a, q) {
            proof {
                assert(contains_seq(aliases.deep_view()[i as int], q@));
            }
            return true;
        }
        i += 1;
    }
    false
}

/// The rank of one command for a query.
fn rank_of(c: &Command, q: &Vec<char>) -> (r: Option<u64>)
    ensures
        match r {
            Some(p) => spec_rank(c@, q@) == Some(p as int),
            None => spec_rank(c@, q@) is None,
        },
{
    let name = string_chars(c.name.as_str());
    if chars_eq(&name, q) {
        proof {
            assert(spec_rank(c@, q@) == Some(0int));
        }
        Some(0)
    } else if any_alias_eq(&c.aliases, q) {
        proof {
            assert(spec_rank(c@, q@) == Some(1int));
        }
        Some(1)
    } else if chars_starts_with(&name, q) {
        proof {
            assert(spec_rank(c@, q@) == Some(2int));
        }
        Some(2)
    } else if any_alias_prefix(&c.aliases, q) {
        proof {
            assert(spec_rank(c@, q@) == Some(3int));
        }
        Some(3)
    } else if chars_contains(&name, q) {
        proof {
            assert(spec_rank(c@, q@) == Some(4int));
        }
        Some(4)
    } else if any_alias_contains(&c.aliases, q) {
        proof {
            assert(spec_rank(c@, q@) == Some(5int));
        }
        Some(5)
    } else {
        None
    }
}

/// The commands of `cs` with rank `p`, in order.
pub open spec fn spec_rank_pass(cs: Seq<CommandView>, q: Seq<char>, p: int) -> Seq<CommandView>
    decreases cs.len(),
{
    if cs.len() == 0 {
        Seq::empty()
    } else {
        (if spec_rank(cs[0], q) == Some(p) {
            seq![cs[0]]
        } else {
            Seq::empty()
        }) + spec_rank_pass(cs.drop_first(), q, p)
    }
}

proof fn lemma_rank_pass_push(cs: Seq<CommandView>, q: Seq<char>, p: int, c: CommandView)
    ensures
        spec_rank_pass(cs.push(c), q, p) == spec_rank_pass(cs, q, p) + (if spec_rank(c, q)
            == Some(p) {
            seq![c]
        } else {
            Seq::<CommandView>::empty()
        }),
    decreases cs.len(),
{
    let tail = if spec_rank(c, q) == Some(p) {
        seq![c]
    } else {
        Seq::<CommandView>::empty()
    };
    if cs.len() == 0 {
        assert(cs.push(c)[0] == c);
        assert(cs.push(c).drop_first() =~= Seq::<CommandView>::empty());
        assert(spec_rank_pass(Seq::<CommandView>::empty(), q, p) == Seq::<CommandView>::empty());
        assert(tail + Seq::<CommandView>::empty() =~= Seq::<CommandView>::empty() + tail);
    } else {
        assert(cs.push(c)[0] == cs[0]);
        assert(cs.push(c).drop_first() =~= cs.drop_first().push(c));
        lemma_rank_pass_push(cs.drop_first(), q, p, c);
        let head = if spec_rank(cs[0], q) == Some(p) {
            seq![cs[0]]
        } else {
            Seq::<CommandView>::empty()
        };
        assert(head + (spec_rank_pass(cs.drop_first(), q, p) + tail) =~= (head + spec_rank_pass(
            cs.drop_first(),
            q,
            p,
        )) + tail);
    }
}

/// The commands of `cs` with rank below `p`, best rank first.
pub open spec fn spec_ranked_up_to(cs: Seq<CommandView>, q: Seq<char>, p: int) -> Seq<
    CommandView,
>
    decreases p,
{
    if p <= 0 {
        Seq::empty()
    } else {
        spec_ranked_up_to(cs, q, p - 1) + spec_rank_pass(cs, q, p - 1)
    }
}

/// Autocomplete suggestions for an input: all commands for an empty input,
/// otherwise the matching commands ordered by rank (declaration order
/// within one rank). Matching is case-insensitive in the input.
pub fn get_suggestions(input: &str) -> (r: Vec<Command>)
    ensures
        lower_of(input@).len() == 0 ==> r.deep_view() == spec_all_commands(),
        lower_of(input@).len() > 0 ==> r.deep_view() == spec_ranked_up_to(
            spec_all_commands(),
            lower_of(input@),
            6,
        ),
{
    let all = all_commands();
    let low = lowercased(input);
    let q = string_chars(low.as_str());
    if q.len() == 0 {
        return all;
    }
    let mut out: Vec<Command> = Vec::new();
    let ghost cs = spec_all_commands();
    let mut p: u64 = 0;
    while p < 6
        invariant
            0 <= p <= 6,
            q@ == lower_of(input@),
            all.deep_view() == cs,
            cs == spec_all_commands(),
            out.deep_view() == spec_ranked_up_to(cs, q@, p as int),
        decreases 6 - p,
    {
        let n = all.len();
        let mut i: usize = 0;
        while i < n
            invariant
                0 <= p < 6,
                0 <= i <= n,
                n == all@.len(),
                q@ == lower_of(input@),
                all.deep_view() == cs,
                cs == spec_all_commands(),
                out.deep_view() == spec_ranked_up_to(cs, q@, p as int) + spec_rank_pass(
                    cs.take(i as int),
                    q@,
                    p as int,
                ),
            decreases n - i,
        {
            proof {
                lemma_rank_pass_push(cs.take(i as int), q@, p as int, cs[i as int]);
                assert(cs.take(i as int).push(cs[i as int]) =~= cs.take(i as int + 1));
            }
            let ghost prev = out.deep_view();
            match rank_of(&all[i], &q) {
                Some(rp) => {
                    if rp == p {
                        out.push(clone_command(&all[i]));
                        proof {
                            assert(out.deep_view() =~= prev + seq![cs[i as int]]);
                        }
                    } else {
                        proof {
                            assert(out.deep_view() =~= prev + Seq::<CommandView>::empty());
                        }
                    }
                }
                None => {
                    proof {
                        assert(out.deep_view() =~= prev + Seq::<CommandView>::empty());
                    }
                }
            }
            i += 1;
        }
        proof {
            assert(cs.take(n as int) =~= cs);
        }
        p += 1;
    }
    out
}

/// Copy a command, preserving its view.
pub fn clone_command(c: &Command) -> (r: Command)
    ensures
        r@ == c@,
{
    let r = Command {
        name: c.name.clone(),
        aliases: crate::jira_types::clone_strings(&c.aliases),
        description: c.description.clone(),
    };
    proof {
        assert(r@ =~= c@);
    }
    r
}

} // verus!
