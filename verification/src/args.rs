//! What the command line asks for.

use crate::cache::cmd::{
    capped, clean, freed, list, list_lines, purge, removal_line, total_size, view, viewed,
};
use crate::cache::{readable_files, CacheDir, FileView};
use crate::text::views;
use crate::translators::QueryArgs;
use vstd::prelude::*;
use vstd::string::*;

verus! {

/// The command line as a whole: a command, or a query where none is
/// named.
#[derive(Clone, Debug, PartialEq, Eq)]
pub struct Cli {
    pub command: Option<Commands>,
    pub query: QueryArgs,
}

/// What the tool can be told to do.
#[derive(Clone, Debug, PartialEq, Eq)]
pub enum Commands {
    /// Look after the cache.
    Cache(CacheArgs),
    /// Translate. This is what happens where no command is named.
    Query(QueryArgs),
}

/// What looking after the cache was asked to do.
#[derive(Clone, Debug, PartialEq, Eq)]
pub struct CacheArgs {
    pub commands: CacheCommands,
    /// Whether to tell what is going on.
    pub verbose: bool,
}

/// The commands that look after the cache.
#[derive(Clone, Debug, PartialEq, Eq)]
pub enum CacheCommands {
    /// Remove every file.
    Clean,
    /// List the files.
    Show,
    /// Remove the files that can no longer be read.
    Purge,
    /// Show the answers in the files whose names begin with `hash`.
    View { hash: String },
}

impl Cli {
    /// The command to run: the one named, or the query.
    pub fn command(self) -> (c: Commands)
        ensures
            c == match self.command {
                Some(named) => named,
                None => Commands::Query(self.query),
            },
    {
        match self.command {
            Some(named) => named,
            None => Commands::Query(self.query),
        }
    }
}

impl Commands {
    /// Whether the command tells what is going on.
    pub open spec fn talks(self) -> bool {
        match self {
            Commands::Cache(args) => args.verbose,
            Commands::Query(args) => args.verbose,
        }
    }

    pub fn verbose(&self) -> (b: bool)
        ensures
            b == self.talks(),
    {
        match self {
            Commands::Cache(args) => args.verbose,
            Commands::Query(args) => args.verbose,
        }
    }
}

impl CacheCommands {
    /// The directory after the command.
    pub open spec fn leaves(self, files: Seq<FileView>, now: u64, ttl: u64) -> Seq<FileView> {
        match self {
            CacheCommands::Clean => Seq::empty(),
            CacheCommands::Purge => readable_files(files, now, ttl),
            _ => files,
        }
    }

    /// What the command writes, line by line.
    pub open spec fn prints(self, files: Seq<FileView>, now: u64, ttl: u64) -> Seq<Seq<char>> {
        match self {
            CacheCommands::Clean => seq![
                removal_line(files.len(), files.len(), capped(total_size(files))),
            ],
            CacheCommands::Show => list_lines(files, now, ttl),
            CacheCommands::Purge => seq![
                removal_line(
                    (files.len() - readable_files(files, now, ttl).len()) as nat,
                    files.len(),
                    capped(freed(files, now, ttl)),
                ),
            ],
            CacheCommands::View { hash } => seq![viewed(files, hash@, now, ttl)],
        }
    }

    /// Runs the command on the directory, and returns what it writes.
    pub fn run(&self, dir: &mut CacheDir, now: u64, ttl: u64) -> (lines: Vec<String>)
        ensures
            final(dir)@ == self.leaves(old(dir)@, now, ttl),
            views(lines@) == self.prints(old(dir)@, now, ttl),
    {
        let mut lines: Vec<String> = Vec::new();
        match self {
            CacheCommands::Clean => {
                lines.push(clean(dir));
            },
            CacheCommands::Show => {
                return list(dir, now, ttl);
            },
            CacheCommands::Purge => {
                lines.push(purge(dir, now, ttl));
            },
            CacheCommands::View { hash } => {
                lines.push(view(dir, hash.as_str(), now, ttl));
            },
        }
        assert(views(lines@) =~= self.prints(old(dir)@, now, ttl));
        lines
    }
}

} // verus!
