//! What a chat of one turn leaves on standard output: the events of the turn.

use vstd::prelude::*;

use crate::history;
use crate::json;
use crate::json::{Json, JsonView};
use crate::json_text;
use crate::json_text::{parse_json, write_json_pretty};
use crate::recall;
use crate::reply;
use crate::sessionlog;
use crate::text;
use crate::text::{lines, trim};

verus! {

/// The event on a line: nothing on a blank line, and nothing on one that is no
/// JSON.
pub open spec fn line_event(line: Seq<char>) -> Option<JsonView> {
    if history::blank(line) {
        None
    } else {
        reply::read_document(json_text::parsed(line))
    }
}

/// The events on these lines, in order.
pub open spec fn events_on(list: Seq<Seq<char>>) -> Seq<JsonView>
    decreases list.len(),
{
    if list.len() == 0 {
        Seq::empty()
    } else {
        text::push_opt(events_on(list.drop_last()), line_event(list.last()))
    }
}

/// `{model, events}`, with `session_id` where there is one.
pub open spec fn report_view(
    model: Seq<char>,
    events: Seq<JsonView>,
    session_id: Option<Seq<char>>,
) -> JsonView {
    let bare = map!["model"@ => JsonView::Str(model), "events"@ => JsonView::Array(events)];
    match session_id {
        Some(id) => JsonView::Object(bare.insert("session_id"@, JsonView::Str(id))),
        None => JsonView::Object(bare),
    }
}

/// Keeps what was read of a line.
pub fn keep_event(outcome: Result<Json, String>) -> (event: Option<Json>)
    ensures
        json::opt_view(event) == reply::read_document(json_text::outcome_view(outcome)),
{
    match outcome {
        Ok(event) => Some(event),
        Err(_) => None,
    }
}

/// The events in what a log has captured.
pub fn captured_events(captured: &str) -> (events: Vec<Json>)
    ensures
        json::views(events@) == events_on(text::lines_of(captured@)),
{
    let list = lines(captured);
    let mut events: Vec<Json> = Vec::new();
    let mut i: usize = 0;
    let ghost all = text::texts(list@);
    assert(json::views(events@) =~= events_on(all.take(0)));
    while i < list.len()
        invariant
            i <= list@.len(),
            all == text::texts(list@),
            json::views(events@) == events_on(all.take(i as int)),
        decreases list@.len() - i,
    {
        let line = list[i].as_str();
        let ghost before = json::views(events@);
        assert(all.take(i + 1).drop_last() =~= all.take(i as int));
        assert(all.take(i + 1).last() == line@);
        if !trim(line).as_str().is_empty() {
            match keep_event(parse_json(line)) {
                Some(event) => {
                    events.push(event);
                    assert(json::views(events@) =~= before.push(event@));
                },
                None => {},
            }
        }
        i += 1;
    }
    assert(all.take(list@.len() as int) =~= all);
    events
}

/// The report on a turn.
pub fn report(model: &str, events: Vec<Json>, session_id: Option<&str>) -> (json: Json)
    ensures
        json@ == report_view(model@, json::views(events@), text::opt_text(session_id)),
{
    let bare = Json::object().with("model", Json::text(model)).with("events", Json::array(events));
    match session_id {
        Some(id) => bare.with("session_id", Json::text(id)),
        None => bare,
    }
}

/// The text that a chat of one turn leaves when it is over, given what its log
/// has captured. A chat that failed leaves one where there are events.
pub fn write_report(
    model: &str,
    captured: &str,
    session_id: Option<&str>,
    succeeded: bool,
) -> (text: Option<String>)
    ensures
        text::opt_string(text) == (if succeeded || events_on(text::lines_of(captured@)).len() > 0 {
            Some(
                json_text::written_pretty(
                    report_view(
                        model@,
                        events_on(text::lines_of(captured@)),
                        text::opt_text(session_id),
                    ),
                ),
            )
        } else {
            None
        }),
{
    let events = captured_events(captured);
    assert(json::views(events@).len() == events@.len());
    if succeeded || events.len() > 0 {
        Some(write_json_pretty(&report(model, events, session_id)))
    } else {
        None
    }
}

proof fn lemma_events_on_bodies(list: Seq<Seq<char>>, log: Seq<JsonView>)
    requires
        recall::recorded(list, log),
        recall::all_recordable(log),
    ensures
        events_on(recall::bodies(list)).len() == log.len(),
        forall|i: int|
            0 <= i < log.len() ==> is_stamped(
                #[trigger] events_on(recall::bodies(list))[i],
                log[i],
            ),
    decreases list.len(),
{
    if list.len() > 0 {
        let before = list.drop_last();
        let last: int = list.len() - 1;
        assert forall|i: int| 0 <= i < last implies sessionlog::records(
            #[trigger] before[i],
            log.drop_last()[i],
        ) by {
            assert(before[i] == list[i]);
        }
        lemma_events_on_bodies(before, log.drop_last());
        assert(recall::bodies(list).drop_last() =~= recall::bodies(before));
        assert(sessionlog::records(list[last], log[last]));
        recall::lemma_line_reads_back(list[last], log[last], 0);
        let ts = choose|ts: Seq<char>|
            sessionlog::is_time(ts) && json_text::reads_as(
                list[last].drop_last(),
                #[trigger] sessionlog::stamped(log[last], ts),
            );
        assert(is_stamped(sessionlog::stamped(log[last], ts), log[last]));
        let front = events_on(recall::bodies(before));
        assert forall|i: int| 0 <= i < log.len() implies is_stamped(
            #[trigger] events_on(recall::bodies(list))[i],
            log[i],
        ) by {
            if i < last {
                assert(is_stamped(front[i], log.drop_last()[i]));
            }
        }
    }
}

/// Whether a document is an event with the time at which it was written.
pub open spec fn is_stamped(document: JsonView, event: JsonView) -> bool {
    exists|ts: Seq<char>|
        sessionlog::is_time(ts) && document == #[trigger] sessionlog::stamped(event, ts)
}

/// The report on a turn has all that was logged: the recorded events, each
/// with its time stamp, one for one and in order.
pub proof fn law_report_has_the_log(list: Seq<Seq<char>>, log: Seq<JsonView>)
    requires
        recall::recorded(list, log),
        recall::all_recordable(log),
    ensures
        events_on(text::lines_of(recall::log_text(list))).len() == log.len(),
        forall|i: int|
            0 <= i < log.len() ==> is_stamped(
                #[trigger] events_on(text::lines_of(recall::log_text(list)))[i],
                log[i],
            ),
{
    recall::lemma_log_lines(list, log);
    lemma_events_on_bodies(list, log);
}

/// The events of a report are those of the captured lines, in order: a blank
/// line and one that is no JSON have none, and any other has what it says.
pub proof fn law_events_line_by_line(before: Seq<Seq<char>>, line: Seq<char>)
    ensures
        events_on(Seq::empty()).len() == 0,
        ({
            let read = json_text::parsed(line);
            if text::trimmed(line).len() > 0 && read is Ok {
                events_on(before.push(line)) == events_on(before).push(read->Ok_0)
            } else {
                events_on(before.push(line)) == events_on(before)
            }
        }),
{
    assert(before.push(line).drop_last() =~= before);
}

} // verus!
