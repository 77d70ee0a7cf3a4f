use runslate::args::{CacheArgs, CacheCommands, Cli, Commands};
use runslate::cache::cmd::{clean, list, purge, removal_report, removal_summary, total, view};
use runslate::cache::{CacheDir, CacheFile, CacheRecord, Stored};
use runslate::translators::{Lang, QueryArgs, Translators};

const NOW: u64 = 1_700_000_000;
const TTL: u64 = 300;

fn record(data: &str, created_at: u64) -> Stored {
    Stored::Record(CacheRecord { data: String::from(data), created_at })
}

fn file(name: &str, size: u64, stored: Stored) -> CacheFile {
    CacheFile { name: String::from(name), size, stored }
}

fn five_files() -> CacheDir {
    let mut dir = CacheDir::new();
    dir.put(file("a", 100, record("1", NOW)));
    dir.put(file("b", 200, record("2", NOW - TTL - 1)));
    dir.put(file("c", 300, Stored::Garbled));
    dir.put(file("d", 400, record("4", NOW - 1)));
    dir.put(file("e", 500, Stored::Unopened));
    dir
}

fn three_expired_two_valid() -> CacheDir {
    let mut dir = CacheDir::new();
    dir.put(file("old1", 1000, record("1", NOW - TTL - 1)));
    dir.put(file("new1", 24, record("2", NOW - 1)));
    dir.put(file("old2", 2000, record("3", NOW - 2 * TTL)));
    dir.put(file("new2", 1000, record("4", NOW - TTL + 1)));
    dir.put(file("old3", 72, record("5", 0)));
    dir
}

fn names(dir: &CacheDir) -> Vec<String> {
    dir.list(NOW, TTL).into_iter().map(|row| row.name).collect()
}

#[test]
fn clean_with_five_files_removes_five_and_leaves_none() {
    let mut dir = five_files();
    assert_eq!(dir.clone().clean_all(), 5);
    let report = clean(&mut dir);
    assert_eq!(report, "Removed 5/5 file(s), 1.5 KB, file(s) in total.");
    assert_eq!(dir.len(), 0);
    assert_eq!(list(&dir, NOW, TTL), vec![String::from("0/0 valid file(s), 0 B in total.")]);
}

#[test]
fn purge_with_three_expired_and_two_valid_removes_three() {
    let mut dir = three_expired_two_valid();
    assert_eq!(dir.clone().purge_expired(NOW, TTL), 3);
    let report = purge(&mut dir, NOW, TTL);
    assert_eq!(report, "Removed 3/5 file(s), 3.0 KB, file(s) in total.");
    assert_eq!(names(&dir), vec![String::from("new1"), String::from("new2")]);
    assert_eq!(dir.find("new1").unwrap().stored, record("2", NOW - 1));
    assert_eq!(dir.find("new2").unwrap().stored, record("4", NOW - TTL + 1));
}

#[test]
fn purging_a_directory_of_valid_files_removes_none() {
    let mut dir = CacheDir::new();
    dir.put(file("a", 10, record("1", NOW)));
    assert_eq!(purge(&mut dir, NOW, TTL), "Removed 0/1 file(s), 0 B, file(s) in total.");
    assert_eq!(dir.len(), 1);
    let mut empty = CacheDir::new();
    assert_eq!(purge(&mut empty, NOW, TTL), "Removed 0/0 file(s), 0 B, file(s) in total.");
    assert_eq!(clean(&mut empty), "Removed 0/0 file(s), 0 B, file(s) in total.");
}

#[test]
fn the_listing_lines_up_sizes_and_units() {
    let mut dir = CacheDir::new();
    dir.put(file("En-youdao-Zh_hello", 1536, record("1", NOW)));
    dir.put(file("En-google-Zh_hi", 999, record("1", NOW - TTL)));
    dir.put(file("junk", 10 << 20, Stored::Garbled));
    assert_eq!(
        list(&dir, NOW, TTL),
        vec![
            String::from("✔ 1.5 KB En-youdao-Zh_hello"),
            String::from("✘ 999  B En-google-Zh_hi"),
            String::from("✘ 10.0MB junk"),
            String::from("1/3 valid file(s), 10.0 MB in total."),
        ]
    );
    assert_eq!(dir.len(), 3);
}

#[test]
fn the_total_is_the_sum_of_the_sizes() {
    assert_eq!(total(&five_files()), 1500);
    assert_eq!(total(&CacheDir::new()), 0);
}

#[test]
fn the_total_stops_at_the_largest_size() {
    let mut dir = CacheDir::new();
    dir.put(file("a", u64::MAX, Stored::Garbled));
    dir.put(file("b", 1, Stored::Garbled));
    dir.put(file("c", u64::MAX, Stored::Garbled));
    assert_eq!(total(&dir), u64::MAX);
    assert_eq!(clean(&mut dir), "Removed 3/3 file(s), 17179869184.0 GB, file(s) in total.");
}

#[test]
fn a_removal_is_reported_with_counts_and_bytes() {
    assert_eq!(removal_report(2, 7, 2048), "Removed 2/7 file(s), 2.0 KB, file(s) in total.");
    assert_eq!(removal_report(0, 0, 0), "Removed 0/0 file(s), 0 B, file(s) in total.");
    assert_eq!(removal_report(1, 1, 999), "Removed 1/1 file(s), 999 B, file(s) in total.");
}

#[test]
fn viewing_shows_the_answers_of_the_files_that_match() {
    let mut dir = CacheDir::new();
    dir.put(file("En-ecdict-Zh_hello", 10, record("{\"word\":\"hello\"}", NOW)));
    dir.put(file("En-ecdict-Zh_help", 10, record("{\"word\":\"help\"}", NOW)));
    dir.put(file("En-google-Zh_hello", 10, record("{\"sentences\":[{\"trans\":\"你好\"}]}", NOW)));
    assert_eq!(view(&dir, "En-ecdict-Zh_hel", NOW, TTL), "hello\nhelp\n");
    assert_eq!(view(&dir, "En-ecdict-Zh_hello", NOW, TTL), "hello\n");
    assert_eq!(view(&dir, "En-google", NOW, TTL), "\x1b[90m你好\x1b[0m\n");
    assert_eq!(view(&dir, "nothing", NOW, TTL), "");
    assert_eq!(dir.len(), 3);
}

#[test]
fn viewing_says_what_cannot_be_shown() {
    let mut dir = CacheDir::new();
    dir.put(file("En-ecdict-Zh_old", 10, record("{\"word\":\"old\"}", NOW - TTL)));
    dir.put(file("En-ecdict-Zh_junk", 10, Stored::Garbled));
    dir.put(file("En-ecdict-Zh_odd", 10, record("{", NOW)));
    dir.put(file("unnamed", 10, record("{\"word\":\"x\"}", NOW)));
    assert_eq!(view(&dir, "En-ecdict-Zh_old", NOW, TTL), "Deserialize file failed\n");
    assert_eq!(view(&dir, "En-ecdict-Zh_junk", NOW, TTL), "Deserialize file failed\n");
    assert_eq!(view(&dir, "En-ecdict-Zh_odd", NOW, TTL), "Deserialize value failed\n");
    assert_eq!(view(&dir, "unnamed", NOW, TTL), "Deserialize value failed\n");
    assert_eq!(dir.len(), 4);
}

fn query() -> QueryArgs {
    QueryArgs {
        translator: Translators::Youdao,
        source_lang: Lang::Auto,
        target_lang: Lang::Zh,
        more: true,
        no_cache: false,
        verbose: false,
        words: vec![String::from("hello")],
    }
}

#[test]
fn a_command_line_without_a_command_is_a_query() {
    let cli = Cli { command: None, query: query() };
    assert_eq!(cli.command(), Commands::Query(query()));
    let cache = CacheArgs { commands: CacheCommands::Purge, verbose: true };
    let cli = Cli { command: Some(Commands::Cache(cache.clone())), query: query() };
    assert_eq!(cli.command(), Commands::Cache(cache));
}

#[test]
fn a_command_tells_whether_it_talks() {
    assert!(Commands::Cache(CacheArgs { commands: CacheCommands::Show, verbose: true }).verbose());
    assert!(!Commands::Cache(CacheArgs { commands: CacheCommands::Show, verbose: false }).verbose());
    assert!(!Commands::Query(query()).verbose());
    let mut loud = query();
    loud.verbose = true;
    assert!(Commands::Query(loud).verbose());
}

#[test]
fn the_cache_commands_run_on_the_directory() {
    let mut dir = five_files();
    let lines = CacheCommands::Show.run(&mut dir, NOW, TTL);
    assert_eq!(lines.len(), 6);
    assert_eq!(lines[5], "2/5 valid file(s), 1.5 KB in total.");
    assert_eq!(dir.len(), 5);

    let lines = CacheCommands::Purge.run(&mut dir, NOW, TTL);
    assert_eq!(lines, vec![String::from("Removed 3/5 file(s), 1.0 KB, file(s) in total.")]);
    assert_eq!(names(&dir), vec![String::from("a"), String::from("d")]);

    let lines = CacheCommands::View { hash: String::from("a") }.run(&mut dir, NOW, TTL);
    assert_eq!(lines, vec![String::from("Deserialize value failed\n")]);

    let lines = CacheCommands::Clean.run(&mut dir, NOW, TTL);
    assert_eq!(lines, vec![String::from("Removed 2/2 file(s), 500 B, file(s) in total.")]);
    assert_eq!(dir.len(), 0);
}

#[test]
fn the_files_that_purging_removes_can_be_told_beforehand() {
    let dir = three_expired_two_valid();
    let doomed = dir.unreadable(NOW, TTL);
    assert_eq!(names(&doomed), vec![String::from("old1"), String::from("old2"), String::from("old3")]);
    assert_eq!(doomed.file(1), dir.find("old2").unwrap());
    assert_eq!(dir.len(), 5);
    let mut purged = dir.clone();
    purged.purge_expired(NOW, TTL);
    assert_eq!(doomed.len() + purged.len(), dir.len());
    assert_eq!(CacheDir::new().unreadable(NOW, TTL).len(), 0);
}

#[test]
fn a_removal_is_summed_up_as_it_turned_out() {
    let dir = three_expired_two_valid();
    let doomed = dir.unreadable(NOW, TTL);
    assert_eq!(
        removal_summary(dir.len(), &doomed, &vec![true, true, true]),
        "Removed 3/5 file(s), 3.0 KB, file(s) in total."
    );
    assert_eq!(
        removal_summary(dir.len(), &doomed, &vec![true, false, true]),
        "Removed 2/5 file(s), 1.0 KB, file(s) in total."
    );
    assert_eq!(
        removal_summary(dir.len(), &doomed, &vec![false, false, false]),
        "Removed 0/5 file(s), 0 B, file(s) in total."
    );
    assert_eq!(
        removal_summary(dir.len(), &doomed, &vec![true]),
        "Removed 1/5 file(s), 1.0 KB, file(s) in total."
    );
    assert_eq!(
        removal_summary(dir.len(), &doomed, &vec![false, false, true, true, true]),
        "Removed 1/5 file(s), 72 B, file(s) in total."
    );
}

#[test]
fn a_file_is_copied_with_all_it_holds() {
    let whole = file("name", 7, record("{\"k\":1}", NOW));
    assert_eq!(whole.duplicate(), whole);
    assert_eq!(file("x", 0, Stored::Unread).duplicate(), file("x", 0, Stored::Unread));
}
