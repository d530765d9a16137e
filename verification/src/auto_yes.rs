//! The auto-responder: which canned reply, if any, the recent output of a
//! session calls for, and which prompts are too dangerous to answer
//! unattended.

use vstd::prelude::*;
use crate::events::{info_views, SessionInfo, SessionInfoView};
use crate::outside::{
    is_folded_literal, regex_check, regex_compiles, regex_error_text, regex_is_match,
    regex_matches,
};
use crate::session::{last_n, SessionStatus};
use crate::text::{has_substring_ignoring_case, is_plain_words, lines_of, split_lines, texts};

verus! {

/// A prompt to look for and the reply to give to it.
#[derive(Debug)]
pub struct PromptPattern {
    /// The regular expression, as written.
    pub pattern: String,
    pub response: String,
    pub description: String,
}

/// Mathematical model of a [`PromptPattern`].
pub struct PromptPatternView {
    pub pattern: Seq<char>,
    pub response: Seq<char>,
    pub description: Seq<char>,
}

impl View for PromptPattern {
    type V = PromptPatternView;

    open spec fn view(&self) -> PromptPatternView {
        PromptPatternView {
            pattern: self.pattern@,
            response: self.response@,
            description: self.description@,
        }
    }
}

/// The models of a list of patterns, element by element.
pub open spec fn pattern_views(patterns: Seq<PromptPattern>) -> Seq<PromptPatternView> {
    Seq::new(patterns.len(), |i: int| patterns[i]@)
}

/// Why a pattern was not added.
#[derive(Debug)]
pub struct PatternError {
    /// The pattern that does not compile.
    pub pattern: String,
    /// What the regular-expression engine said of it.
    pub reason: String,
}

/// A reply to send to a session.
#[derive(Debug)]
pub struct AutoReply {
    pub session_id: String,
    pub response: String,
}

/// The models of a list of replies: pairs of session and text.
pub open spec fn reply_views(replies: Seq<AutoReply>) -> Seq<(Seq<char>, Seq<char>)> {
    Seq::new(replies.len(), |i: int| (replies[i].session_id@, replies[i].response@))
}

/// What wakes the monitoring loop.
#[derive(Debug)]
pub enum MonitorEvent {
    /// The poll interval elapsed; carries the snapshots of the registered
    /// sessions.
    Tick(Vec<SessionInfo>),
    /// Shutdown was signalled.
    Shutdown,
}

/// What the monitoring loop does next.
#[derive(Debug)]
pub enum MonitorAction {
    /// Send these replies, then wait for the next event.
    Reply(Vec<AutoReply>),
    /// Leave the loop.
    Stop,
}

/// The pattern written `pattern` compiles and matches somewhere in `line`.
pub open spec fn pattern_hits(pattern: Seq<char>, line: Seq<char>) -> bool {
    regex_compiles(pattern) && regex_matches(pattern, line)
}

/// The lines that are scanned for prompts: the last five, newest first.
pub open spec fn recent_lines(output: Seq<char>) -> Seq<Seq<char>> {
    last_n(lines_of(output), 5).reverse()
}

/// For each scanned line, newest first, and each pattern, in order, whether
/// the pattern hits the line.
pub open spec fn hit_table(patterns: Seq<PromptPatternView>, lines: Seq<Seq<char>>) -> Seq<
    Seq<bool>,
> {
    Seq::new(
        lines.len(),
        |r: int| Seq::new(patterns.len(), |c: int| pattern_hits(patterns[c].pattern, lines[r])),
    )
}

/// The index of the first flag of `row` that is set.
pub open spec fn first_set(row: Seq<bool>) -> Option<int>
    decreases row.len(),
{
    if row.len() == 0 {
        None
    } else {
        match first_set(row.drop_last()) {
            Some(i) => Some(i),
            None => if row.last() {
                Some(row.len() - 1)
            } else {
                None
            },
        }
    }
}

/// The column of the first flag that is set in the first row that holds
/// one.
pub open spec fn first_hit(table: Seq<Seq<bool>>) -> Option<int>
    decreases table.len(),
{
    if table.len() == 0 {
        None
    } else {
        match first_hit(table.drop_last()) {
            Some(i) => Some(i),
            None => first_set(table.last()),
        }
    }
}

/// The pattern that answers `output`: scanning the last five lines from the
/// newest backward, the first pattern that hits the line in hand.
pub open spec fn prompt_in(patterns: Seq<PromptPatternView>, output: Seq<char>) -> Option<int> {
    first_hit(hit_table(patterns, recent_lines(output)))
}

/// Whether a session takes part in automatic replies: it asked for them and
/// is ready for input.
pub open spec fn is_eligible(info: SessionInfoView) -> bool {
    info.auto_yes && info.status == SessionStatus::Ready
}

/// The replies that the snapshots `infos` call for, in their order: one for
/// each eligible session whose preview holds a prompt.
pub open spec fn replies_for(patterns: Seq<PromptPatternView>, infos: Seq<SessionInfoView>) -> Seq<
    (Seq<char>, Seq<char>),
>
    decreases infos.len(),
{
    if infos.len() == 0 {
        Seq::empty()
    } else {
        let info = infos.last();
        let before = replies_for(patterns, infos.drop_last());
        match prompt_in(patterns, info.output_preview) {
            Some(i) => if is_eligible(info) {
                before.push((info.id, patterns[i].response))
            } else {
                before
            },
            None => before,
        }
    }
}

/// The words that mark a prompt as dangerous.
pub open spec fn dangerous_words() -> Seq<Seq<char>> {
    seq![
        "delete"@,
        "remove"@,
        "force"@,
        "overwrite"@,
        "destructive"@,
        "permanent"@,
        "cannot be undone"@,
        "are you sure"@,
    ]
}

/// The pattern that looks for `word` without regard to case.
pub open spec fn folded(word: Seq<char>) -> Seq<char> {
    "(?i)"@ + word
}

/// Some dangerous word is found in `output` by its pattern.
pub open spec fn is_dangerous(output: Seq<char>) -> bool {
    exists|i: int|
        0 <= i < dangerous_words().len() && pattern_hits(
            folded(#[trigger] dangerous_words()[i]),
            output,
        )
}

/// The prompts that are answered by default.
pub open spec fn default_patterns() -> Seq<PromptPatternView> {
    seq![
        PromptPatternView {
            pattern: "(?i)(continue|proceed|yes/no|y/n)\\s*[?:]?\\s*$"@,
            response: "yes"@,
            description: "General confirmation prompts"@,
        },
        PromptPatternView {
            pattern: "(?i)press enter to continue"@,
            response: ""@,
            description: "Press enter prompts"@,
        },
        PromptPatternView {
            pattern: "(?i)would you like to"@,
            response: "yes"@,
            description: "Would you like prompts"@,
        },
        PromptPatternView {
            pattern: "(?i)is this correct"@,
            response: "yes"@,
            description: "Confirmation prompts"@,
        },
    ]
}

/// Answers recognized prompts of the sessions that asked for it.
#[derive(Debug)]
pub struct AutoYesManager {
    pub patterns: Vec<PromptPattern>,
    /// Seconds between two scans.
    pub poll_interval_secs: u64,
}

impl Default for AutoYesManager {
    fn default() -> (manager: AutoYesManager)
        ensures
            pattern_views(manager.patterns@) == default_patterns(),
            manager.poll_interval_secs == 2,
    {
        AutoYesManager::new()
    }
}

impl AutoYesManager {
    /// A responder with the default prompts that scans every two seconds.
    pub fn new() -> (manager: AutoYesManager)
        ensures
            pattern_views(manager.patterns@) == default_patterns(),
            manager.poll_interval_secs == 2,
    {
        let mut patterns: Vec<PromptPattern> = Vec::new();
        patterns.push(
            PromptPattern {
                pattern: "(?i)(continue|proceed|yes/no|y/n)\\s*[?:]?\\s*$".to_owned(),
                response: "yes".to_owned(),
                description: "General confirmation prompts".to_owned(),
            },
        );
        patterns.push(
            PromptPattern {
                pattern: "(?i)press enter to continue".to_owned(),
                response: "".to_owned(),
                description: "Press enter prompts".to_owned(),
            },
        );
        patterns.push(
            PromptPattern {
                pattern: "(?i)would you like to".to_owned(),
                response: "yes".to_owned(),
                description: "Would you like prompts".to_owned(),
            },
        );
        patterns.push(
            PromptPattern {
                pattern: "(?i)is this correct".to_owned(),
                response: "yes".to_owned(),
                description: "Confirmation prompts".to_owned(),
            },
        );
        assert(pattern_views(patterns@) =~= default_patterns());
        AutoYesManager { patterns, poll_interval_secs: 2 }
    }

    /// Adds a prompt behind those already there, provided its pattern
    /// compiles; otherwise leaves the responder as it is and reports the
    /// pattern.
    pub fn add_pattern(&mut self, pattern: &str, response: &str, description: &str) -> (result:
        Result<(), PatternError>)
        ensures
            result is Ok <==> regex_compiles(pattern@),
            final(self).poll_interval_secs == old(self).poll_interval_secs,
            result is Ok ==> pattern_views(final(self).patterns@) == pattern_views(
                old(self).patterns@,
            ).push(
                PromptPatternView {
                    pattern: pattern@,
                    response: response@,
                    description: description@,
                },
            ),
            result matches Err(e) ==> e.pattern@ == pattern@ && final(self).patterns@ == old(
                self,
            ).patterns@,
    {
        match regex_check(pattern) {
            Ok(()) => {
                let added = PromptPattern {
                    pattern: pattern.to_owned(),
                    response: response.to_owned(),
                    description: description.to_owned(),
                };
                assert(pattern_views(self.patterns@.push(added)) =~= pattern_views(
                    self.patterns@,
                ).push(added@));
                self.patterns.push(added);
                Ok(())
            },
            Err(e) => Err(
                PatternError { pattern: pattern.to_owned(), reason: regex_error_text(&e) },
            ),
        }
    }

    /// Picks the column of the first flag that is set in the first row that
    /// holds one: the rows stand for the scanned lines, newest first, the
    /// columns for the patterns.
    pub fn select_pattern(table: &Vec<Vec<bool>>) -> (picked: Option<usize>)
        ensures
            match first_hit(table_view(table@)) {
                Some(i) => picked matches Some(k) && k == i,
                None => picked is None,
            },
    {
        let rows = table.len();
        let mut r: usize = 0;
        assert(table_view(table@).take(0) =~= Seq::empty());
        while r < rows
            invariant
                rows == table@.len(),
                r <= rows,
                first_hit(table_view(table@).take(r as int)) is None,
            decreases rows - r,
        {
            let row = &table[r];
            let cols = row.len();
            let mut c: usize = 0;
            assert(row@.take(0) =~= Seq::empty());
            let ghost upto = table_view(table@).take(r + 1);
            proof {
                assert(upto.drop_last() =~= table_view(table@).take(r as int));
                assert(upto.last() == row@);
                assert(first_hit(upto.drop_last()) is None);
            }
            while c < cols
                invariant
                    cols == row@.len(),
                    c <= cols,
                    first_set(row@.take(c as int)) is None,
                    rows == table@.len(),
                    r < rows,
                    upto == table_view(table@).take(r + 1),
                    upto.last() == row@,
                    first_hit(upto.drop_last()) is None,
                decreases cols - c,
            {
                let ghost next = row@.take(c + 1);
                proof {
                    assert(next.drop_last() =~= row@.take(c as int));
                    assert(next.last() == row@[c as int]);
                }
                if row[c] {
                    proof {
                        lemma_first_set_extends(next, row@);
                        assert(first_hit(upto) == Some(c as int));
                        assert(table_view(table@).len() == rows);
                        assert(upto =~= table_view(table@).take(upto.len() as int));
                        lemma_first_hit_extends(upto, table_view(table@));
                    }
                    return Some(c);
                }
                c += 1;
            }
            assert(row@.take(cols as int) =~= row@);
            r += 1;
        }
        assert(table_view(table@).take(rows as int) =~= table_view(table@));
        None
    }

    /// The prompt that `output` ends in, if any: the last five lines are
    /// scanned from the newest backward, and the first pattern that matches
    /// the line in hand is returned. A pattern that does not compile matches
    /// nothing.
    pub fn detect_prompt(&self, output: &str) -> (found: Option<&PromptPattern>)
        ensures
            match prompt_in(pattern_views(self.patterns@), output@) {
                Some(i) => 0 <= i < self.patterns@.len() && found == Some(&self.patterns@[i]),
                None => found is None,
            },
    {
        let lines = split_lines(output);
        let count = lines.len();
        let start = if count <= 5 {
            0
        } else {
            count - 5
        };
        let ghost recent = recent_lines(output@);
        let ghost patterns = pattern_views(self.patterns@);
        let mut table: Vec<Vec<bool>> = Vec::new();
        let mut i: usize = count;
        assert(recent.len() == count - start);
        assert(table_view(table@) =~= hit_table(patterns, recent).take(0));
        while i > start
            invariant
                count == lines@.len(),
                start <= i <= count,
                start == if count <= 5 {
                    0
                } else {
                    count - 5
                },
                texts(lines@) == lines_of(output@),
                recent == recent_lines(output@),
                recent.len() == count - start,
                patterns == pattern_views(self.patterns@),
                table_view(table@) == hit_table(patterns, recent).take(count - i),
            decreases i,
        {
            let line = lines[i - 1].as_str();
            proof {
                assert(recent[count - i] == texts(lines@)[i - 1]);
                assert(line@ == recent[count - i]);
            }
            let cols = self.patterns.len();
            let mut row: Vec<bool> = Vec::new();
            let mut c: usize = 0;
            while c < cols
                invariant
                    cols == self.patterns@.len(),
                    c <= cols,
                    patterns == pattern_views(self.patterns@),
                    row@.len() == c,
                    forall|k: int|
                        0 <= k < c ==> row@[k] == pattern_hits(patterns[k].pattern, line@),
                decreases cols - c,
            {
                let hit = match regex_is_match(self.patterns[c].pattern.as_str(), line) {
                    Ok(found) => found,
                    Err(_) => false,
                };
                row.push(hit);
                c += 1;
            }
            proof {
                assert(row@ =~= hit_table(patterns, recent)[count - i]);
                lemma_table_push(table@, row);
                assert(hit_table(patterns, recent).take(count - i).push(row@) =~= hit_table(
                    patterns,
                    recent,
                ).take(count - i + 1));
            }
            table.push(row);
            i -= 1;
        }
        assert(hit_table(patterns, recent).take(count - start) =~= hit_table(patterns, recent));
        match Self::select_pattern(&table) {
            Some(picked) => {
                proof {
                    lemma_first_hit_bound(table_view(table@));
                }
                Some(&self.patterns[picked])
            },
            None => None,
        }
    }

    /// The replies that the sessions in `sessions` call for: one for each
    /// session that asked for automatic replies, is ready, and whose output
    /// preview ends in a known prompt.
    pub fn check_all_sessions(&self, sessions: &Vec<SessionInfo>) -> (replies: Vec<AutoReply>)
        ensures
            reply_views(replies@) == replies_for(
                pattern_views(self.patterns@),
                info_views(sessions@),
            ),
    {
        let ghost patterns = pattern_views(self.patterns@);
        let mut replies: Vec<AutoReply> = Vec::new();
        let n = sessions.len();
        let mut i: usize = 0;
        assert(info_views(sessions@).take(0) =~= Seq::empty());
        assert(reply_views(replies@) =~= Seq::empty());
        while i < n
            invariant
                n == sessions@.len(),
                i <= n,
                patterns == pattern_views(self.patterns@),
                reply_views(replies@) == replies_for(patterns, info_views(sessions@).take(i as int)),
            decreases n - i,
        {
            let info = &sessions[i];
            let ghost next = info_views(sessions@).take(i + 1);
            proof {
                assert(next.drop_last() =~= info_views(sessions@).take(i as int));
                assert(next.last() == info@);
            }
            if info.auto_yes && info.status == SessionStatus::Ready {
                match self.detect_prompt(info.output_preview.as_str()) {
                    Some(prompt) => {
                        let reply = AutoReply {
                            session_id: info.id.clone(),
                            response: prompt.response.clone(),
                        };
                        assert(reply_views(replies@.push(reply)) =~= reply_views(replies@).push(
                            (reply.session_id@, reply.response@),
                        ));
                        replies.push(reply);
                    },
                    None => {},
                }
            }
            i += 1;
        }
        assert(info_views(sessions@).take(n as int) =~= info_views(sessions@));
        replies
    }

    /// One turn of the monitoring loop: a tick is answered with the replies
    /// that the sessions call for, shutdown with leaving the loop.
    pub fn start_monitoring(&self, event: MonitorEvent) -> (action: MonitorAction)
        ensures
            match event {
                MonitorEvent::Tick(sessions) => action matches MonitorAction::Reply(replies)
                    && reply_views(replies@) == replies_for(
                    pattern_views(self.patterns@),
                    info_views(sessions@),
                ),
                MonitorEvent::Shutdown => action is Stop,
            },
    {
        match event {
            MonitorEvent::Tick(sessions) => MonitorAction::Reply(
                self.check_all_sessions(&sessions),
            ),
            MonitorEvent::Shutdown => MonitorAction::Stop,
        }
    }

    /// The words that mark a prompt as dangerous.
    fn danger_list() -> (words: Vec<String>)
        ensures
            texts(words@) == dangerous_words(),
            forall|i: int|
                0 <= i < words@.len() ==> is_plain_words(#[trigger] words@[i]@) && words@[i]@.len()
                    <= 16,
    {
        let mut words: Vec<String> = Vec::new();
        words.push("delete".to_owned());
        words.push("remove".to_owned());
        words.push("force".to_owned());
        words.push("overwrite".to_owned());
        words.push("destructive".to_owned());
        words.push("permanent".to_owned());
        words.push("cannot be undone".to_owned());
        words.push("are you sure".to_owned());
        proof {
            reveal_strlit("delete");
            reveal_strlit("remove");
            reveal_strlit("force");
            reveal_strlit("overwrite");
            reveal_strlit("destructive");
            reveal_strlit("permanent");
            reveal_strlit("cannot be undone");
            reveal_strlit("are you sure");
            reveal_with_fuel(is_plain_words, 20);
            assert(texts(words@) =~= dangerous_words());
            assert(is_plain_words("delete"@));
            assert(is_plain_words("remove"@));
            assert(is_plain_words("force"@));
            assert(is_plain_words("overwrite"@));
            assert(is_plain_words("destructive"@));
            assert(is_plain_words("permanent"@));
            assert(is_plain_words("cannot be undone"@));
            assert(is_plain_words("are you sure"@));
        }
        words
    }

    /// Whether a prompt may be answered unattended: it may not where one of
    /// the dangerous words is found in it by its case-insensitive pattern.
    /// In particular a prompt that holds one of the words, in any mix of
    /// upper and lower case, is never safe.
    pub fn is_safe_prompt(output: &str) -> (safe: bool)
        ensures
            safe == !is_dangerous(output@),
            forall|i: int|
                0 <= i < dangerous_words().len() && has_substring_ignoring_case(
                    output@,
                    #[trigger] dangerous_words()[i],
                ) ==> !safe,
    {
        let words = Self::danger_list();
        let n = words.len();
        let mut i: usize = 0;
        while i < n
            invariant
                n == words@.len(),
                i <= n,
                texts(words@) == dangerous_words(),
                forall|k: int|
                    0 <= k < words@.len() ==> is_plain_words(#[trigger] words@[k]@)
                        && words@[k]@.len() <= 16,
                forall|k: int|
                    0 <= k < i ==> !pattern_hits(folded(#[trigger] dangerous_words()[k]), output@),
                forall|k: int|
                    0 <= k < i ==> !has_substring_ignoring_case(
                        output@,
                        #[trigger] dangerous_words()[k],
                    ),
            decreases n - i,
        {
            let word = words[i].as_str();
            let mut pattern = "(?i)".to_owned();
            pattern.append(word);
            proof {
                reveal_strlit("(?i)");
                assert(word@ == texts(words@)[i as int]);
                assert(pattern@ == folded(dangerous_words()[i as int]));
                assert(pattern@.take(4) =~= "(?i)"@);
                assert(pattern@.skip(4) =~= word@);
                assert(is_plain_words(words@[i as int]@));
                assert(is_folded_literal(pattern@));
            }
            match regex_is_match(pattern.as_str(), output) {
                Ok(true) => {
                    return false;
                },
                _ => {},
            }
            i += 1;
        }
        true
    }
}

/// The model of a table of flags.
pub open spec fn table_view(table: Seq<Vec<bool>>) -> Seq<Seq<bool>> {
    Seq::new(table.len(), |i: int| table[i]@)
}

/// Pushing a row pushes its model.
pub proof fn lemma_table_push(table: Seq<Vec<bool>>, row: Vec<bool>)
    ensures
        table_view(table.push(row)) == table_view(table).push(row@),
{
    assert(table_view(table.push(row)) =~= table_view(table).push(row@)) by {
        assert forall|k: int| 0 <= k < table.len() + 1 implies #[trigger] table_view(
            table.push(row),
        )[k] == table_view(table).push(row@)[k] by {
            if k < table.len() {
                assert(table_view(table)[k] == table[k]@);
            }
        }
    }
}

/// A flag that is the first one set in a row stays so when the row grows.
pub proof fn lemma_first_set_extends(part: Seq<bool>, row: Seq<bool>)
    requires
        part.len() <= row.len(),
        part == row.take(part.len() as int),
        first_set(part) is Some,
    ensures
        first_set(row) == first_set(part),
    decreases row.len() - part.len(),
{
    if part.len() < row.len() {
        let next = row.take(part.len() as int + 1);
        assert(next.drop_last() =~= part);
        lemma_first_set_extends(next, row);
    } else {
        assert(part =~= row);
    }
}

/// A hit that is the first one in a table stays so when the table grows.
pub proof fn lemma_first_hit_extends(part: Seq<Seq<bool>>, table: Seq<Seq<bool>>)
    requires
        part.len() <= table.len(),
        part == table.take(part.len() as int),
        first_hit(part) is Some,
    ensures
        first_hit(table) == first_hit(part),
    decreases table.len() - part.len(),
{
    if part.len() < table.len() {
        let next = table.take(part.len() as int + 1);
        assert(next.drop_last() =~= part);
        lemma_first_hit_extends(next, table);
    } else {
        assert(part =~= table);
    }
}

/// The first flag that is set lies inside its row.
pub proof fn lemma_first_set_bound(row: Seq<bool>)
    ensures
        first_set(row) matches Some(i) ==> 0 <= i < row.len() && row[i],
    decreases row.len(),
{
    if row.len() > 0 {
        lemma_first_set_bound(row.drop_last());
    }
}

/// The first hit of a table of equally long rows lies inside the rows.
pub proof fn lemma_first_hit_bound(table: Seq<Seq<bool>>)
    ensures
        first_hit(table) matches Some(i) ==> exists|r: int|
            0 <= r < table.len() && 0 <= i < (#[trigger] table[r]).len(),
    decreases table.len(),
{
    if table.len() > 0 {
        lemma_first_hit_bound(table.drop_last());
        lemma_first_set_bound(table.last());
        match first_hit(table.drop_last()) {
            Some(i) => {
                let r = choose|r: int|
                    0 <= r < table.drop_last().len() && 0 <= i < (#[trigger] table.drop_last()[r]).len();
                assert(table[r] == table.drop_last()[r]);
            },
            None => {
                if first_set(table.last()) is Some {
                    assert(table[table.len() - 1] == table.last());
                }
            },
        }
    }
}

} // verus!
