use vstd::prelude::*;
use crate::text::{copy_str, join2, join3};

verus! {

/// What the program is asked to do besides serving.
#[derive(Debug, Clone, Copy, PartialEq, Eq, Structural)]
pub enum Command {
    /// Generate a default and example config file.
    Init,
    /// Print the resolved config and exit.
    PrintConfig,
}

/// The command line: configuration file names (without extensions) from least to
/// most priority, and an optional command.
#[derive(Debug)]
pub struct Args {
    pub configs: Vec<String>,
    pub command: Option<Command>,
}

/// The source a configuration name is read from: `config/<name>`.
pub open spec fn spec_config_source(name: Seq<char>) -> Seq<char> {
    "config/"@ + name
}

/// The sources of the configuration names, in priority order.
pub fn config_sources(configs: &Vec<String>) -> (r: Vec<String>)
    ensures
        r.deep_view() == configs.deep_view().map_values(|n: Seq<char>| spec_config_source(n)),
{
    let mut out: Vec<String> = Vec::new();
    let mut i: usize = 0;
    while i < configs.len()
        invariant
            i <= configs@.len(),
            out.deep_view() == configs.deep_view().take(i as int).map_values(|n: Seq<char>| spec_config_source(n)),
        decreases configs.len() - i,
    {
        let ghost before = out.deep_view();
        let s = join2("config/", configs[i].as_str());
        out.push(s);
        assert(out.deep_view() =~= before.push(s@));
        assert(configs.deep_view().take(i + 1).map_values(|n: Seq<char>| spec_config_source(n))
            =~= configs.deep_view().take(i as int).map_values(|n: Seq<char>| spec_config_source(n)).push(spec_config_source(configs@[i as int]@)));
        i = i + 1;
    }
    assert(configs.deep_view().take(configs@.len() as int) =~= configs.deep_view());
    out
}

/// The line that names an expected configuration file.
pub open spec fn expected_file_line(name: Seq<char>) -> Seq<char> {
    "  config/"@ + name + ".toml"@
}

/// Lines joined with newlines.
pub open spec fn join_lines(lines: Seq<Seq<char>>) -> Seq<char>
    decreases lines.len(),
{
    if lines.len() == 0 {
        Seq::empty()
    } else if lines.len() == 1 {
        lines[0]
    } else {
        join_lines(lines.drop_last()) + "\n"@ + lines.last()
    }
}

/// The message shown when the configuration cannot be loaded: the files that were
/// expected, one per line, and how to generate a default configuration.
pub open spec fn spec_load_failure_message(configs: Seq<Seq<char>>, program: Seq<char>) -> Seq<char> {
    "failed to load config. Expected files:\n\n"@
        + join_lines(configs.map_values(|n: Seq<char>| expected_file_line(n)))
        + "\n\nRun `"@ + program + " init` to generate a default config."@
}

/// Writes the message shown when the configuration cannot be loaded.
pub fn load_failure_message(configs: &Vec<String>, program: &str) -> (m: String)
    ensures
        m@ == spec_load_failure_message(configs.deep_view(), program@),
{
    let ghost lines = configs.deep_view().map_values(|n: Seq<char>| expected_file_line(n));
    let mut files = String::new();
    let mut i: usize = 0;
    proof {
        assert(files@ =~= Seq::<char>::empty());
    }
    while i < configs.len()
        invariant
            lines == configs.deep_view().map_values(|n: Seq<char>| expected_file_line(n)),
            i <= configs@.len(),
            files@ == join_lines(lines.take(i as int)),
        decreases configs.len() - i,
    {
        let line = join3("  config/", configs[i].as_str(), ".toml");
        assert(line@ == lines[i as int]);
        assert(lines.take(i + 1).drop_last() =~= lines.take(i as int));
        if i == 0 {
            files = line;
            assert(files@ =~= join_lines(lines.take(1)));
        } else {
            files = files.concat("\n").concat(line.as_str());
        }
        i = i + 1;
    }
    assert(lines.take(configs@.len() as int) =~= lines);
    let head = copy_str("failed to load config. Expected files:\n\n");
    head.concat(files.as_str()).concat("\n\nRun `").concat(program).concat(" init` to generate a default config.")
}

} // verus!
