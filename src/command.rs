use vstd::prelude::*;

verus! {

/// An external process to run: the program, its arguments, the directory it
/// runs in and the environment variables it gets on top of the inherited ones.
pub struct Command {
    pub program: String,
    pub args: Vec<String>,
    pub dir: String,
    pub envs: Vec<(String, String)>,
}

pub struct CommandView {
    pub program: Seq<char>,
    pub args: Seq<Seq<char>>,
    pub dir: Seq<char>,
    pub envs: Seq<(Seq<char>, Seq<char>)>,
}

pub open spec fn strings_view(v: Seq<String>) -> Seq<Seq<char>> {
    v.map_values(|s: String| s@)
}

impl View for Command {
    type V = CommandView;

    open spec fn view(&self) -> CommandView {
        CommandView {
            program: self.program@,
            args: strings_view(self.args@),
            dir: self.dir@,
            envs: self.envs@.map_values(|e: (String, String)| (e.0@, e.1@)),
        }
    }
}

/// A vector of owned copies of the given strings.
pub fn strings(items: &[&str]) -> (r: Vec<String>)
    ensures
        strings_view(r@) == items@.map_values(|s: &str| s@),
{
    let mut r: Vec<String> = Vec::new();
    let mut i: usize = 0;
    while i < items.len()
        invariant
            i <= items@.len(),
            strings_view(r@) =~= items@.take(i as int).map_values(|s: &str| s@),
        decreases items@.len() - i,
    {
        let ghost before = r@;
        r.push(String::from_str(items[i]));
        proof {
            assert(r@ =~= before.push(r@.last()));
            assert(strings_view(r@) =~= strings_view(before).push(items@[i as int]@));
            assert(items@.take(i as int + 1) =~= items@.take(i as int).push(items@[i as int]));
            assert(items@.take(i as int + 1).map_values(|s: &str| s@) =~= items@.take(
                i as int,
            ).map_values(|s: &str| s@).push(items@[i as int]@));
        }
        i = i + 1;
    }
    assert(items@.take(i as int) =~= items@);
    r
}

impl Command {
    /// A command with no extra environment.
    pub fn new(program: &str, args: Vec<String>, dir: &str) -> (r: Command)
        ensures
            r@.program == program@,
            r@.args == strings_view(args@),
            r@.dir == dir@,
            r@.envs == Seq::<(Seq<char>, Seq<char>)>::empty(),
    {
        let r = Command {
            program: String::from_str(program),
            args,
            dir: String::from_str(dir),
            envs: Vec::new(),
        };
        assert(r@.envs =~= Seq::<(Seq<char>, Seq<char>)>::empty());
        r
    }
}

} // verus!
