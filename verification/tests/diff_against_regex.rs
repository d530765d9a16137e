use multi_session::events::DiffStats;
use multi_session::git_worktree::GitWorktree;

fn summary_pattern() -> regex::Regex {
    regex::Regex::new(
        r"(\d+) files? changed(?:, (\d+) insertions?\(\+\))?(?:, (\d+) deletions?\(-\))?",
    )
    .unwrap()
}

fn by_regex(re: &regex::Regex, output: &str) -> DiffStats {
    let mut stats = DiffStats { files_changed: 0, insertions: 0, deletions: 0 };
    for line in output.lines().rev() {
        if let Some(captures) = re.captures(line) {
            if let Some(files) = captures.get(1) {
                stats.files_changed = files.as_str().parse().unwrap_or(0);
            }
            if let Some(insertions) = captures.get(2) {
                stats.insertions = insertions.as_str().parse().unwrap_or(0);
            }
            if let Some(deletions) = captures.get(3) {
                stats.deletions = deletions.as_str().parse().unwrap_or(0);
            }
            break;
        }
    }
    stats
}

#[test]
fn summary_parser_agrees_with_the_pattern_on_built_lines() {
    let re = summary_pattern();
    let heads = ["", "9", "junk 3 files changed, 1 deletion(-)\n"];
    let counts = ["1", "007", "18446744073709551615", "18446744073709551616", ""];
    let nouns = [" file", " files", " filess"];
    let changed = [" changed", " changes"];
    let ins = ["", ", 5 insertions(+)", ", 1 insertion(+)", ",5 insertions(+)", ", 5 insertionss(+)"];
    let del = ["", ", 6 deletions(-)", ", 1 deletion(-)", ", 6 deletions"];
    let tails = ["", " trailing", "\nlast line", "\n2 files changed"];
    let mut checked = 0;
    for head in heads {
        for count in counts {
            for noun in nouns {
                for ch in changed {
                    for i in ins {
                        for d in del {
                            for tail in tails {
                                let text = format!("{head}{count}{noun}{ch}{i}{d}{tail}");
                                assert_eq!(
                                    GitWorktree::parse_diff_stats(&text),
                                    by_regex(&re, &text),
                                    "{text:?}"
                                );
                                checked += 1;
                            }
                        }
                    }
                }
            }
        }
    }
    assert_eq!(checked, 7200);
}

#[test]
fn summary_parser_agrees_with_the_pattern_on_mixed_pieces() {
    let re = summary_pattern();
    let parts = [
        "", " ", "1", "22", "0", " file", " files", " filess", " changed", ", ", ",", " insertion",
        " insertions", "(+)", " deletion", " deletions", "(-)", "\n", "\r\n", "x", "s", "(",
        "18446744073709551616",
    ];
    let mut state: u64 = 0x2545F4914F6CDD1D;
    for _ in 0..3000 {
        let mut text = String::new();
        let mut n = 0;
        while n < 12 {
            state ^= state << 13;
            state ^= state >> 7;
            state ^= state << 17;
            let pick = (state % parts.len() as u64) as usize;
            text.push_str(parts[pick]);
            n += 1;
        }
        assert_eq!(GitWorktree::parse_diff_stats(&text), by_regex(&re, &text), "{text:?}");
    }
}

#[test]
fn summary_parser_agrees_with_the_pattern_on_real_output() {
    let re = summary_pattern();
    let outputs = [
        " README.md | 2 +-\n 1 file changed, 1 insertion(+), 1 deletion(-)\n",
        " a | 1 +\n b | 1 -\n 2 files changed, 1 insertion(+), 1 deletion(-)\n",
        " src/lib.rs | 120 ++++++++++++++++++++\n 1 file changed, 120 insertions(+)\n",
        " old.txt | 30 ------------------------------\n 1 file changed, 30 deletions(-)\n",
        " bin.dat | Bin 0 -> 1024 bytes\n 1 file changed, 0 insertions(+), 0 deletions(-)\n",
        "",
    ];
    for out in outputs {
        assert_eq!(GitWorktree::parse_diff_stats(out), by_regex(&re, out), "{out:?}");
    }
}
