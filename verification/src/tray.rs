//! What the tray icon and its menu show.

use crate::json::{
    json_document, lemma_member_models, member_models, optional_model, parse_json, Json, JsonModel,
};
use crate::text::{decimal, join2, join3, join_text, joined_text, owned, same_text, texts,
    write_number};
use vstd::prelude::*;
use vstd::string::*;
use vstd::utf8::*;

verus! {

/// How the tray shows a state of the daemon.
#[derive(Debug, Eq, PartialEq)]
pub struct TrayPresentation {
    pub daemon_state: String,
    pub status: &'static str,
    pub icon_name: &'static str,
}

/// The icon for a state of the daemon, and whether it asks for attention.
pub open spec fn icon_for(state: Seq<char>) -> (Seq<char>, bool) {
    if state == "preparing"@ {
        ("microphone-sensitivity-medium"@, false)
    } else if state == "listening"@ {
        ("microphone-sensitivity-high"@, true)
    } else if state == "finalizing"@ {
        ("content-loading"@, false)
    } else if state == "inserting"@ {
        ("insert-text"@, false)
    } else if state == "completed"@ {
        ("emblem-default"@, false)
    } else if state == "cancelled"@ {
        ("process-stop"@, false)
    } else if state == "failed"@ || state == "unavailable"@ {
        ("dialog-error"@, true)
    } else {
        ("audio-input-microphone"@, false)
    }
}

/// The daemon works for a session.
pub open spec fn busy(state: Seq<char>) -> bool {
    ||| state == "preparing"@
    ||| state == "listening"@
    ||| state == "finalizing"@
    ||| state == "inserting"@
}

impl Clone for TrayPresentation {
    fn clone(&self) -> (r: Self)
        ensures
            r == *self,
    {
        TrayPresentation {
            daemon_state: self.daemon_state.clone(),
            status: self.status,
            icon_name: self.icon_name,
        }
    }
}

impl TrayPresentation {
    /// The presentation of a state.
    pub open spec fn shows(self, state: Seq<char>) -> bool {
        &&& self.daemon_state@ == state
        &&& self.icon_name@ == icon_for(state).0
        &&& self.status@ == (if icon_for(state).1 {
            "NeedsAttention"@
        } else {
            "Active"@
        })
    }

    fn active(daemon_state: &str, icon_name: &'static str) -> (r: Self)
        ensures
            r.daemon_state@ == daemon_state@,
            r.status@ == "Active"@,
            r.icon_name@ == icon_name@,
    {
        TrayPresentation { daemon_state: owned(daemon_state), status: "Active", icon_name }
    }

    fn attention(daemon_state: &str, icon_name: &'static str) -> (r: Self)
        ensures
            r.daemon_state@ == daemon_state@,
            r.status@ == "NeedsAttention"@,
            r.icon_name@ == icon_name@,
    {
        TrayPresentation { daemon_state: owned(daemon_state), status: "NeedsAttention", icon_name }
    }

    pub fn from_daemon_status(status: &str) -> (r: Self)
        ensures
            r.shows(status@),
    {
        if same_text(status, "preparing") {
            Self::active(status, "microphone-sensitivity-medium")
        } else if same_text(status, "listening") {
            Self::attention(status, "microphone-sensitivity-high")
        } else if same_text(status, "finalizing") {
            Self::active(status, "content-loading")
        } else if same_text(status, "inserting") {
            Self::active(status, "insert-text")
        } else if same_text(status, "completed") {
            Self::active(status, "emblem-default")
        } else if same_text(status, "cancelled") {
            Self::active(status, "process-stop")
        } else if same_text(status, "failed") || same_text(status, "unavailable") {
            Self::attention(status, "dialog-error")
        } else {
            Self::active(status, "audio-input-microphone")
        }
    }

    pub fn is_busy(&self) -> (r: bool)
        ensures
            r == busy(self.daemon_state@),
    {
        let state = self.daemon_state.as_str();
        same_text(state, "preparing") || same_text(state, "listening") || same_text(
            state,
            "finalizing",
        ) || same_text(state, "inserting")
    }

    /// Whether another presentation looks the same.
    pub fn same(&self, other: &TrayPresentation) -> (r: bool)
        ensures
            r == (self.daemon_state@ == other.daemon_state@ && self.status@ == other.status@
                && self.icon_name@ == other.icon_name@),
    {
        same_text(self.daemon_state.as_str(), other.daemon_state.as_str()) && same_text(
            self.status,
            other.status,
        ) && same_text(self.icon_name, other.icon_name)
    }
}

/// An item of the menu can be chosen while the daemon is in a state.
pub open spec fn enabled(id: i32, state: Seq<char>) -> bool {
    if id == 1 {
        state != "unavailable"@ && !busy(state)
    } else if id == 2 {
        state == "listening"@
    } else if id == 3 {
        busy(state)
    } else {
        true
    }
}

pub fn menu_item_enabled(id: i32, presentation: &TrayPresentation) -> (r: bool)
    ensures
        r == enabled(id, presentation.daemon_state@),
{
    if id == 1 {
        !same_text(presentation.daemon_state.as_str(), "unavailable") && !presentation.is_busy()
    } else if id == 2 {
        same_text(presentation.daemon_state.as_str(), "listening")
    } else if id == 3 {
        presentation.is_busy()
    } else {
        true
    }
}

/// What a click in the menu asks for.
#[derive(Clone, Copy, Debug, Eq, PartialEq, Structural)]
pub enum MenuAction {
    Nothing,
    Start,
    Stop,
    Cancel,
    Cleanup,
    Usage,
    Settings,
    Diagnostics,
    Leave,
}

/// The action of an item.
pub open spec fn action_of(id: i32) -> MenuAction {
    if id == 1 {
        MenuAction::Start
    } else if id == 2 {
        MenuAction::Stop
    } else if id == 3 {
        MenuAction::Cancel
    } else if id == 4 {
        MenuAction::Cleanup
    } else if id == 5 {
        MenuAction::Usage
    } else if id == 6 {
        MenuAction::Settings
    } else if id == 7 {
        MenuAction::Diagnostics
    } else if id == 8 {
        MenuAction::Leave
    } else {
        MenuAction::Nothing
    }
}

/// What an event of the menu asks for: only a click on an item that can be chosen does anything.
pub fn event(id: i32, event_id: &str, presentation: &TrayPresentation) -> (action: MenuAction)
    ensures
        action == (if event_id@ == "clicked"@ && enabled(id, presentation.daemon_state@) {
            action_of(id)
        } else {
            MenuAction::Nothing
        }),
{
    if !same_text(event_id, "clicked") {
        return MenuAction::Nothing;
    }
    if !menu_item_enabled(id, presentation) {
        return MenuAction::Nothing;
    }
    match id {
        1 => MenuAction::Start,
        2 => MenuAction::Stop,
        3 => MenuAction::Cancel,
        4 => MenuAction::Cleanup,
        5 => MenuAction::Usage,
        6 => MenuAction::Settings,
        7 => MenuAction::Diagnostics,
        8 => MenuAction::Leave,
        _ => MenuAction::Nothing,
    }
}

/// An item of the menu.
#[derive(Debug)]
pub struct MenuItem {
    pub id: i32,
    pub label: String,
    pub enabled: bool,
}

/// The labels of the menu, in their order.
pub open spec fn menu_labels(usage_label: Seq<char>) -> Seq<Seq<char>> {
    seq![
        "开始语音输入"@,
        "停止语音输入"@,
        "取消当前任务"@,
        "整理最近输入"@,
        usage_label,
        "设置与 API 密钥"@,
        "诊断状态"@,
        "退出托盘"@,
    ]
}

fn menu_item(id: i32, label: &str, presentation: &TrayPresentation) -> (item: MenuItem)
    ensures
        item.id == id,
        item.label@ == label@,
        item.enabled == enabled(id, presentation.daemon_state@),
{
    MenuItem { id, label: owned(label), enabled: menu_item_enabled(id, presentation) }
}

/// The items of the menu; `usage` is what the daemon tells of its consumption, where it answers.
pub fn menu_children(presentation: &TrayPresentation, usage: Option<&str>) -> (items: Vec<MenuItem>)
    ensures
        ({
            let labels = menu_labels(
                match usage {
                    Some(status) => usage_text(status@),
                    None => "用量：不可用"@,
                },
            );
            &&& items@.len() == 8
            &&& forall|i: int|
                0 <= i < 8 ==> {
                    &&& (#[trigger] items@[i]).id == i + 1
                    &&& items@[i].label@ == labels[i]
                    &&& items@[i].enabled == enabled((i + 1) as i32, presentation.daemon_state@)
                }
        }),
{
    let usage_label = match usage {
        Some(status) => usage_summary(status),
        None => owned("用量：不可用"),
    };
    let mut items: Vec<MenuItem> = Vec::new();
    items.push(menu_item(1, "开始语音输入", presentation));
    items.push(menu_item(2, "停止语音输入", presentation));
    items.push(menu_item(3, "取消当前任务", presentation));
    items.push(menu_item(4, "整理最近输入", presentation));
    items.push(menu_item(5, usage_label.as_str(), presentation));
    items.push(menu_item(6, "设置与 API 密钥", presentation));
    items.push(menu_item(7, "诊断状态", presentation));
    items.push(menu_item(8, "退出托盘", presentation));
    items
}

/// A duration in seconds and tenths.
pub open spec fn duration_text(millis: u64) -> Seq<char> {
    decimal((millis / 1_000) as nat) + "."@ + decimal((millis % 1_000 / 100) as nat) + "s"@
}

pub fn format_audio_duration(millis: u64) -> (text: String)
    ensures
        text@ == duration_text(millis),
{
    let seconds = write_number(millis / 1_000);
    let tenths = write_number(millis % 1_000 / 100);
    let mut text = join3(seconds.as_str(), ".", tenths.as_str());
    text.append("s");
    text
}

/// A number among the usage of a provider, zero where there is none.
pub open spec fn usage_number(entry: JsonModel, name: Seq<char>) -> u64 {
    match entry.member("usage"@) {
        Some(usage) => match usage.member(name) {
            Some(value) => match value.unsigned() {
                Some(number) => number,
                None => 0,
            },
            None => 0,
        },
        None => 0,
    }
}

fn number_in(entry: &Json, name: &str) -> (r: u64)
    ensures
        r == usage_number(entry@, name@),
{
    match entry.get("usage") {
        Some(usage) => match usage.get(name) {
            Some(value) => match value.as_unsigned() {
                Some(number) => number,
                None => 0,
            },
            None => 0,
        },
        None => 0,
    }
}

/// The consumption of one provider. Tokens are told only where the provider reported any.
pub open spec fn provider_usage_text(id: Seq<char>, entry: JsonModel) -> Seq<char> {
    id + ": "@ + decimal(usage_number(entry, "requests"@) as nat) + " 次 · "@ + duration_text(
        usage_number(entry, "audio_millis"@),
    ) + (if usage_number(entry, "token_reports"@) > 0 {
        " · "@ + decimal(usage_number(entry, "reported_tokens"@) as nat) + " token"@
    } else {
        " · token 未报告"@
    })
}

fn provider_usage(id: &str, entry: &Json) -> (text: String)
    ensures
        text@ == provider_usage_text(id@, entry@),
{
    let requests = write_number(number_in(entry, "requests"));
    let duration = format_audio_duration(number_in(entry, "audio_millis"));
    let mut text = join3(id, ": ", requests.as_str());
    text.append(" 次 · ");
    text.append(duration.as_str());
    let ghost before = text@;
    if number_in(entry, "token_reports") > 0 {
        let tokens = write_number(number_in(entry, "reported_tokens"));
        text.append(" · ");
        text.append(tokens.as_str());
        text.append(" token");
        assert(text@ =~= before + (" · "@ + tokens@ + " token"@));
    } else {
        text.append(" · token 未报告");
    }
    text
}

pub open spec fn usage_lines(members: Seq<(Seq<char>, JsonModel)>) -> Seq<Seq<char>> {
    Seq::new(members.len(), |i: int| provider_usage_text(members[i].0, members[i].1))
}

/// The consumption of all providers, from the document that the daemon tells it with.
pub open spec fn usage_in_document(document: Option<JsonModel>) -> Seq<char> {
    match document {
        Some(value) => match value.member("providers"@) {
            Some(JsonModel::Object(members)) => if members.len() == 0 {
                "用量：无 Provider"@
            } else {
                "用量（本次 daemon 会话）："@ + joined_text(usage_lines(members), "；"@)
            },
            _ => "用量：数据不可用"@,
        },
        None => "用量：数据不可用"@,
    }
}

/// The consumption of all providers, from the text that the daemon tells it with.
pub open spec fn usage_text(status: Seq<char>) -> Seq<char> {
    usage_in_document(json_document(encode_utf8(status)))
}

/// Summarizes a document of consumption.
pub fn summarize_usage(document: Option<Json>) -> (text: String)
    ensures
        text@ == usage_in_document(optional_model(document)),
{
    let value = match document {
        Some(value) => value,
        None => {
            return owned("用量：数据不可用");
        },
    };
    match value.get("providers") {
        Some(Json::Object(members)) => {
            proof {
                lemma_member_models(members@);
            }
            if members.len() == 0 {
                return owned("用量：无 Provider");
            }
            let mut summaries: Vec<String> = Vec::new();
            let ghost all = usage_lines(member_models(members@));
            assert(texts(summaries@) =~= all.take(0));
            for i in 0..members.len()
                invariant
                    all.len() == members@.len(),
                    forall|k: int|
                        0 <= k < members@.len() ==> all[k] == provider_usage_text(
                            (#[trigger] members@[k]).0@,
                            members@[k].1@,
                        ),
                    texts(summaries@) == all.take(i as int),
            {
                let ghost before = texts(summaries@);
                summaries.push(provider_usage(members[i].0.as_str(), &members[i].1));
                assert(texts(summaries@) =~= before.push(all[i as int]));
                assert(all.take(i + 1) =~= all.take(i as int).push(all[i as int]));
            }
            assert(all.take(all.len() as int) =~= all);
            let joined = join_text(&summaries, "；");
            join2("用量（本次 daemon 会话）：", joined.as_str())
        },
        _ => owned("用量：数据不可用"),
    }
}

/// Summarizes the consumption that the daemon tells of.
pub fn usage_summary(status: &str) -> (text: String)
    ensures
        text@ == usage_text(status@),
{
    summarize_usage(parse_json(status.as_bytes()))
}

/// Dictation is not started twice, and only a running one is stopped or cancelled.
pub proof fn law_menu_follows_the_daemon(state: Seq<char>)
    ensures
        !(enabled(1, state) && enabled(3, state)),
        enabled(2, state) ==> enabled(3, state),
        enabled(1, state) ==> !busy(state),
{
}

/// Tokens are not invented: without a report the number of tokens does not show.
pub proof fn law_unreported_tokens_do_not_show(id: Seq<char>, a: JsonModel, b: JsonModel)
    requires
        usage_number(a, "token_reports"@) == 0,
        usage_number(b, "token_reports"@) == 0,
        usage_number(a, "requests"@) == usage_number(b, "requests"@),
        usage_number(a, "audio_millis"@) == usage_number(b, "audio_millis"@),
    ensures
        provider_usage_text(id, a) == provider_usage_text(id, b),
{
}

/// A duration is told in seconds and tenths of them, cut off behind.
pub proof fn law_duration_is_told_in_tenths(seconds: nat, tenths: nat, rest: nat)
    requires
        tenths < 10,
        rest < 100,
        seconds * 1_000 + tenths * 100 + rest <= u64::MAX,
    ensures
        duration_text((seconds * 1_000 + tenths * 100 + rest) as u64) == decimal(seconds) + "."@
            + decimal(tenths) + "s"@,
{
    let millis = (seconds * 1_000 + tenths * 100 + rest) as u64;
    assert(millis / 1_000 == seconds);
    assert(millis % 1_000 == tenths * 100 + rest);
    assert((tenths * 100 + rest) / 100 == tenths);
}

/// A dictation can be started from the menu exactly where the daemon is there and does nothing, stopped
/// while it listens, and cancelled while it does anything; everything else can always be chosen.
pub proof fn law_menu_offers_what_can_be_done(state: Seq<char>, id: i32)
    ensures
        enabled(2, state) ==> enabled(3, state) && !enabled(1, state),
        enabled(1, state) && state != "unavailable"@ ==> !enabled(3, state),
        enabled(3, state) <==> state == "preparing"@ || state == "listening"@ || state
            == "finalizing"@ || state == "inserting"@,
        enabled(2, state) <==> state == "listening"@,
        enabled(1, state) <==> !enabled(3, state) && state != "unavailable"@,
        id < 1 || id > 3 ==> enabled(id, state),
{
}

/// The icon asks for attention exactly while the microphone is open and where something went wrong.
pub proof fn law_icon_asks_for_attention(state: Seq<char>)
    ensures
        icon_for(state).1 ==> state == "listening"@ || state == "failed"@ || state
            == "unavailable"@,
        state == "failed"@ || state == "unavailable"@ ==> icon_for(state).1,
        state == "listening"@ ==> icon_for(state) == ("microphone-sensitivity-high"@, true),
{
    reveal_strlit("preparing");
    reveal_strlit("listening");
    reveal_strlit("finalizing");
    reveal_strlit("inserting");
    reveal_strlit("completed");
    reveal_strlit("cancelled");
    reveal_strlit("failed");
    reveal_strlit("unavailable");
    assert("preparing"@[0] == 'p' && "listening"@[0] == 'l' && "finalizing"@[1] == 'i'
        && "inserting"@[0] == 'i' && "completed"@[1] == 'o' && "cancelled"@[1] == 'a'
        && "failed"@[1] == 'a' && "failed"@.len() == 6 && "unavailable"@[0] == 'u'
        && "cancelled"@.len() == 9 && "finalizing"@[0] == 'f' && "completed"@[0] == 'c'
        && "cancelled"@[0] == 'c' && "failed"@[0] == 'f');
}

} // verus!
