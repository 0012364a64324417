//! Diagnosis of the global shortcuts that the desktop keeps for the voice actions.

use crate::percent::{push_upper_hex, upper_hex};
use crate::table::{text_before, Table};
use crate::text::{
    decimal, join2, join3, join_text, joined_text, owned, same_text, texts, write_number,
};
use vstd::prelude::*;
use vstd::string::*;

verus! {

/// A shortcut as the desktop tells it: the action, its friendly name, the component, its friendly
/// name, the context, its friendly name, the keys and the default keys.
pub type KGlobalShortcutInfo = (
    String,
    String,
    String,
    String,
    String,
    String,
    Vec<i32>,
    Vec<i32>,
);

/// A voice action that has a shortcut.
#[derive(Clone, Copy, Debug)]
pub struct ExpectedShortcut {
    pub label: &'static str,
    pub component_path: &'static str,
    pub component_id: &'static str,
    pub action_id: &'static str,
}

/// The label, component path, component and action of a voice action.
pub open spec fn shortcut_parts(shortcut: ExpectedShortcut) -> (
    Seq<char>,
    Seq<char>,
    Seq<char>,
    Seq<char>,
) {
    (
        shortcut.label@,
        shortcut.component_path@,
        shortcut.component_id@,
        shortcut.action_id@,
    )
}

/// A voice action of the main desktop entry.
pub open spec fn voice_action(label: Seq<char>, action: Seq<char>) -> (
    Seq<char>,
    Seq<char>,
    Seq<char>,
    Seq<char>,
) {
    (
        label,
        "/component/io_github_tinnci_VoxType_desktop"@,
        "io.github.tinnci.VoxType.desktop"@,
        action,
    )
}

/// The voice actions that are packaged.
pub fn expected_shortcuts() -> (r: Vec<ExpectedShortcut>)
    ensures
        r@.len() == 5,
        shortcut_parts(r@[0]) == voice_action("toggle"@, "_launch"@),
        shortcut_parts(r@[1]) == voice_action("cancel"@, "Cancel"@),
        shortcut_parts(r@[2]) == voice_action("start"@, "Start"@),
        shortcut_parts(r@[3]) == voice_action("stop"@, "Stop"@),
        shortcut_parts(r@[4]) == (
            "grammar"@,
            "/component/io_github_tinnci_VoxType_Grammar_desktop"@,
            "io.github.tinnci.VoxType.Grammar.desktop"@,
            "_launch"@,
        ),
{
    let path: &'static str = "/component/io_github_tinnci_VoxType_desktop";
    let id: &'static str = "io.github.tinnci.VoxType.desktop";
    vec![
        ExpectedShortcut {
            label: "toggle",
            component_path: path,
            component_id: id,
            action_id: "_launch",
        },
        ExpectedShortcut {
            label: "cancel",
            component_path: path,
            component_id: id,
            action_id: "Cancel",
        },
        ExpectedShortcut {
            label: "start",
            component_path: path,
            component_id: id,
            action_id: "Start",
        },
        ExpectedShortcut {
            label: "stop",
            component_path: path,
            component_id: id,
            action_id: "Stop",
        },
        ExpectedShortcut {
            label: "grammar",
            component_path: "/component/io_github_tinnci_VoxType_Grammar_desktop",
            component_id: "io.github.tinnci.VoxType.Grammar.desktop",
            action_id: "_launch",
        },
    ]
}

#[derive(Clone, Copy, Debug, Eq, PartialEq, Structural)]
pub enum ShortcutState {
    Fine,
    MissingComponent,
    MissingAction,
    Inactive,
    Unbound,
    Conflict,
}

impl ShortcutState {
    pub open spec fn word(self) -> Seq<char> {
        match self {
            ShortcutState::Fine => "ok"@,
            ShortcutState::MissingComponent => "missing-component"@,
            ShortcutState::MissingAction => "missing-action"@,
            ShortcutState::Inactive => "inactive"@,
            ShortcutState::Unbound => "unbound"@,
            ShortcutState::Conflict => "conflict"@,
        }
    }

    pub fn as_str(self) -> (r: &'static str)
        ensures
            r@ == self.word(),
    {
        match self {
            ShortcutState::Fine => "ok",
            ShortcutState::MissingComponent => "missing-component",
            ShortcutState::MissingAction => "missing-action",
            ShortcutState::Inactive => "inactive",
            ShortcutState::Unbound => "unbound",
            ShortcutState::Conflict => "conflict",
        }
    }
}

/// What is known of the shortcut of a voice action.
#[derive(Debug)]
pub struct ShortcutDiagnostic {
    pub label: &'static str,
    pub state: ShortcutState,
    pub current: Vec<i32>,
    pub defaults: Vec<i32>,
    pub conflicts: Vec<String>,
}

/// The keys that are bound; zero stands for none.
pub open spec fn bound(shortcuts: Seq<i32>) -> Seq<i32> {
    shortcuts.filter(|shortcut: i32| shortcut != 0)
}

pub fn bound_shortcuts(shortcuts: &[i32]) -> (r: Vec<i32>)
    ensures
        r@ == bound(shortcuts@),
{
    let mut keys: Vec<i32> = Vec::new();
    let ghost wanted = |shortcut: i32| shortcut != 0;
    proof {
        assert(shortcuts@.take(0) =~= Seq::<i32>::empty());
        reveal(Seq::filter);
    }
    for i in 0..shortcuts.len()
        invariant
            wanted == (|shortcut: i32| shortcut != 0),
            keys@ == shortcuts@.take(i as int).filter(wanted),
    {
        proof {
            reveal(Seq::filter);
            assert(shortcuts@.take(i + 1).drop_last() =~= shortcuts@.take(i as int));
            assert(shortcuts@.take(i + 1).last() == shortcuts@[i as int]);
        }
        let key: i32 = shortcuts[i];
        if key != 0 {
            keys.push(key);
        }
    }
    assert(shortcuts@.take(shortcuts@.len() as int) =~= shortcuts@);
    keys
}

/// How the shortcut of a registered action stands.
pub open spec fn shortcut_state(active: bool, bound: bool, conflicting: bool) -> ShortcutState {
    if !active {
        ShortcutState::Inactive
    } else if conflicting {
        ShortcutState::Conflict
    } else if !bound {
        ShortcutState::Unbound
    } else {
        ShortcutState::Fine
    }
}

pub fn classify_shortcut(active: bool, current: &[i32], conflicts: &[String]) -> (r: ShortcutState)
    ensures
        r == shortcut_state(active, current@.len() > 0, conflicts@.len() > 0),
{
    if !active {
        ShortcutState::Inactive
    } else if conflicts.len() > 0 {
        ShortcutState::Conflict
    } else if current.len() == 0 {
        ShortcutState::Unbound
    } else {
        ShortcutState::Fine
    }
}

/// The bits of a shortcut.
pub open spec fn shortcut_bits(shortcut: i32) -> u32 {
    (if shortcut >= 0 {
        shortcut as int
    } else {
        shortcut + 0x1_0000_0000
    }) as u32
}

/// The keys that are held down with the key of a shortcut.
pub open spec fn modifiers(value: u32) -> Seq<char> {
    (if value & 0x1000_0000u32 != 0 {
        "Meta+"@
    } else {
        Seq::empty()
    }) + (if value & 0x0400_0000u32 != 0 {
        "Ctrl+"@
    } else {
        Seq::empty()
    }) + (if value & 0x0800_0000u32 != 0 {
        "Alt+"@
    } else {
        Seq::empty()
    }) + (if value & 0x0200_0000u32 != 0 {
        "Shift+"@
    } else {
        Seq::empty()
    }) + (if value & 0x2000_0000u32 != 0 {
        "Keypad+"@
    } else {
        Seq::empty()
    })
}

/// How a shortcut is shown: its modifiers and its key.
pub open spec fn shortcut_text(shortcut: i32) -> Seq<char> {
    let value = shortcut_bits(shortcut);
    modifiers(value) + key_text(value & 0xC1FF_FFFFu32)
}

/// A number as eight hexadecimal digits.
pub open spec fn eight_digits(key: u32) -> Seq<char> {
    upper_hex((key / 0x100_0000) as u8) + upper_hex((key / 0x1_0000 % 0x100) as u8) + upper_hex(
        (key / 0x100 % 0x100) as u8,
    ) + upper_hex((key % 0x100) as u8)
}

/// The name of a key that is not a character.
pub open spec fn named_key(key: u32) -> Option<Seq<char>> {
    if key == 0x0100_0000 {
        Some("Escape"@)
    } else if key == 0x0100_0001 {
        Some("Tab"@)
    } else if key == 0x0100_0002 {
        Some("Backtab"@)
    } else if key == 0x0100_0003 {
        Some("Backspace"@)
    } else if key == 0x0100_0004 {
        Some("Return"@)
    } else if key == 0x0100_0005 {
        Some("Enter"@)
    } else if key == 0x0100_0006 {
        Some("Insert"@)
    } else if key == 0x0100_0007 {
        Some("Delete"@)
    } else if key == 0x0100_0010 {
        Some("Home"@)
    } else if key == 0x0100_0011 {
        Some("End"@)
    } else if key == 0x0100_0012 {
        Some("Left"@)
    } else if key == 0x0100_0013 {
        Some("Up"@)
    } else if key == 0x0100_0014 {
        Some("Right"@)
    } else if key == 0x0100_0015 {
        Some("Down"@)
    } else if key == 0x0100_0016 {
        Some("PageUp"@)
    } else if key == 0x0100_0017 {
        Some("PageDown"@)
    } else if key == 0x20 {
        Some("Space"@)
    } else {
        None
    }
}

/// How a key is shown.
pub open spec fn key_text(key: u32) -> Seq<char> {
    match named_key(key) {
        Some(name) => name,
        None => if 0x0100_0030 <= key <= 0x0100_0052 {
            "F"@ + decimal((key - 0x0100_0030 + 1) as nat)
        } else if 0x21 <= key <= 0x7e {
            seq![key as u8 as char]
        } else {
            "Key(0x"@ + eight_digits(key) + ")"@
        },
    }
}

fn key_name(key: u32) -> (r: Option<&'static str>)
    ensures
        match r {
            Some(name) => named_key(key) == Some(name@),
            None => named_key(key) is None,
        },
{
    match key {
        0x0100_0000 => Some("Escape"),
        0x0100_0001 => Some("Tab"),
        0x0100_0002 => Some("Backtab"),
        0x0100_0003 => Some("Backspace"),
        0x0100_0004 => Some("Return"),
        0x0100_0005 => Some("Enter"),
        0x0100_0006 => Some("Insert"),
        0x0100_0007 => Some("Delete"),
        0x0100_0010 => Some("Home"),
        0x0100_0011 => Some("End"),
        0x0100_0012 => Some("Left"),
        0x0100_0013 => Some("Up"),
        0x0100_0014 => Some("Right"),
        0x0100_0015 => Some("Down"),
        0x0100_0016 => Some("PageUp"),
        0x0100_0017 => Some("PageDown"),
        0x20 => Some("Space"),
        _ => None,
    }
}

pub fn format_qt_key(key: u32) -> (text: String)
    ensures
        text@ == key_text(key),
{
    match key_name(key) {
        Some(name) => {
            return owned(name);
        },
        None => {},
    }
    if 0x0100_0030 <= key && key <= 0x0100_0052 {
        let number = write_number((key - 0x0100_0030 + 1) as u64);
        return join2("F", number.as_str());
    }
    let mut text = String::new();
    if 0x21 <= key && key <= 0x7e {
        text.push(key as u8 as char);
        assert(text@ =~= seq![key as u8 as char]);
        return text;
    }
    text.append("Key(0x");
    push_upper_hex(&mut text, (key / 0x100_0000) as u8);
    push_upper_hex(&mut text, (key / 0x1_0000 % 0x100) as u8);
    push_upper_hex(&mut text, (key / 0x100 % 0x100) as u8);
    push_upper_hex(&mut text, (key % 0x100) as u8);
    text.append(")");
    assert(text@ =~= "Key(0x"@ + eight_digits(key) + ")"@);
    text
}

pub fn format_qt_shortcut(shortcut: i32) -> (text: String)
    ensures
        text@ == shortcut_text(shortcut),
{
    let value: u32 = if shortcut >= 0 {
        shortcut as u32
    } else {
        (shortcut as i64 + 0x1_0000_0000) as u32
    };
    let mut text = String::new();
    if value & 0x1000_0000u32 != 0 {
        text.append("Meta+");
    }
    if value & 0x0400_0000u32 != 0 {
        text.append("Ctrl+");
    }
    if value & 0x0800_0000u32 != 0 {
        text.append("Alt+");
    }
    if value & 0x0200_0000u32 != 0 {
        text.append("Shift+");
    }
    if value & 0x2000_0000u32 != 0 {
        text.append("Keypad+");
    }
    assert(text@ =~= modifiers(value));
    let key = format_qt_key(value & 0xC1FF_FFFFu32);
    text.append(key.as_str());
    text
}

pub open spec fn shortcut_texts(shortcuts: Seq<i32>) -> Seq<Seq<char>> {
    Seq::new(shortcuts.len(), |i: int| shortcut_text(shortcuts[i]))
}

/// How several shortcuts are shown.
pub fn format_shortcuts(shortcuts: &[i32]) -> (text: String)
    ensures
        text@ == (if shortcuts@.len() == 0 {
            "none"@
        } else {
            joined_text(shortcut_texts(shortcuts@), "|"@)
        }),
{
    if shortcuts.len() == 0 {
        return owned("none");
    }
    let mut parts: Vec<String> = Vec::new();
    let ghost all = shortcut_texts(shortcuts@);
    assert(texts(parts@) =~= all.take(0));
    for i in 0..shortcuts.len()
        invariant
            all == shortcut_texts(shortcuts@),
            texts(parts@) == all.take(i as int),
    {
        let ghost before = texts(parts@);
        parts.push(format_qt_shortcut(shortcuts[i]));
        assert(texts(parts@) =~= before.push(all[i as int]));
        assert(all.take(i + 1) =~= all.take(i as int).push(all[i as int]));
    }
    assert(all.take(all.len() as int) =~= all);
    join_text(&parts, "|")
}

/// Whether a shortcut belongs to another action than the given one.
pub open spec fn foreign(
    owner: KGlobalShortcutInfo,
    component_id: Seq<char>,
    action_id: Seq<char>,
) -> bool {
    owner.2@ != component_id || owner.0@ != action_id
}

/// How another owner of a key is shown.
pub open spec fn owner_text(owner: KGlobalShortcutInfo, key: i32) -> Seq<char> {
    owner.2@ + ":"@ + owner.0@ + "@"@ + shortcut_text(key)
}

/// The other owners of a key.
pub open spec fn other_owners(
    owners: Seq<KGlobalShortcutInfo>,
    component_id: Seq<char>,
    action_id: Seq<char>,
    key: i32,
) -> Seq<Seq<char>>
    decreases owners.len(),
{
    if owners.len() == 0 {
        Seq::empty()
    } else {
        let before = other_owners(owners.drop_last(), component_id, action_id, key);
        if foreign(owners.last(), component_id, action_id) {
            before.push(owner_text(owners.last(), key))
        } else {
            before
        }
    }
}

pub fn other_shortcut_owners(
    owners: &Vec<KGlobalShortcutInfo>,
    component_id: &str,
    action_id: &str,
    key: i32,
) -> (r: Vec<String>)
    ensures
        texts(r@) == other_owners(owners@, component_id@, action_id@, key),
{
    let mut names: Vec<String> = Vec::new();
    assert(owners@.take(0) =~= Seq::<KGlobalShortcutInfo>::empty());
    assert(texts(names@) =~= Seq::<Seq<char>>::empty());
    for i in 0..owners.len()
        invariant
            texts(names@) == other_owners(
                owners@.take(i as int),
                component_id@,
                action_id@,
                key,
            ),
    {
        proof {
            assert(owners@.take(i + 1).drop_last() =~= owners@.take(i as int));
            assert(owners@.take(i + 1).last() == owners@[i as int]);
        }
        let owner = &owners[i];
        if !same_text(owner.2.as_str(), component_id) || !same_text(owner.0.as_str(), action_id) {
            let shortcut = format_qt_shortcut(key);
            let mut name = join3(owner.2.as_str(), ":", owner.0.as_str());
            name.append("@");
            name.append(shortcut.as_str());
            let ghost before = texts(names@);
            names.push(name);
            assert(texts(names@) =~= before.push(name@));
        }
    }
    assert(owners@.take(owners@.len() as int) =~= owners@);
    names
}

/// Texts in their order, each once.
pub open spec fn sorted_texts(list: Seq<Seq<char>>) -> bool {
    forall|i: int, j: int|
        0 <= i < j < list.len() ==> text_before(#[trigger] list[i], #[trigger] list[j])
}

/// The other owners of the first `n` of some keys.
pub open spec fn all_conflicts(
    owned_keys: Seq<(i32, Vec<KGlobalShortcutInfo>)>,
    component_id: Seq<char>,
    action_id: Seq<char>,
) -> Seq<Seq<char>>
    decreases owned_keys.len(),
{
    if owned_keys.len() == 0 {
        Seq::empty()
    } else {
        all_conflicts(owned_keys.drop_last(), component_id, action_id) + other_owners(
            owned_keys.last().1@,
            component_id,
            action_id,
            owned_keys.last().0,
        )
    }
}

/// The conflicts in their order, each once.
fn collect_conflicts(
    owned_keys: &Vec<(i32, Vec<KGlobalShortcutInfo>)>,
    component_id: &str,
    action_id: &str,
) -> (r: Vec<String>)
    ensures
        sorted_texts(texts(r@)),
        forall|text: Seq<char>| #[trigger]
            texts(r@).contains(text) <==> all_conflicts(
                owned_keys@,
                component_id@,
                action_id@,
            ).contains(text),
{
    let mut table: Table<()> = Table::new();
    let ghost mut all: Seq<Seq<char>> = Seq::empty();
    assert(owned_keys@.take(0) =~= Seq::<(i32, Vec<KGlobalShortcutInfo>)>::empty());
    for i in 0..owned_keys.len()
        invariant
            all == all_conflicts(owned_keys@.take(i as int), component_id@, action_id@),
            forall|text: Seq<char>| #[trigger] table.has(text) <==> all.contains(text),
    {
        let names = other_shortcut_owners(
            &owned_keys[i].1,
            component_id,
            action_id,
            owned_keys[i].0,
        );
        let ghost new = texts(names@);
        let ghost before = all;
        proof {
            assert(owned_keys@.take(i + 1).drop_last() =~= owned_keys@.take(i as int));
            assert(owned_keys@.take(i + 1).last() == owned_keys@[i as int]);
            assert(before + new.take(0) =~= before);
        }
        for k in 0..names.len()
            invariant
                new == texts(names@),
                forall|text: Seq<char>| #[trigger]
                    table.has(text) <==> (before + new.take(k as int)).contains(text),
        {
            proof {
                let now = before + new.take(k as int);
                assert(before + new.take(k + 1) =~= now.push(new[k as int]));
                assert forall|text: Seq<char>|
                    now.push(new[k as int]).contains(text) <==> now.contains(text) || text
                        == new[k as int] by {
                    if now.contains(text) {
                        let at = choose|at: int| 0 <= at < now.len() && now[at] == text;
                        assert(now.push(new[k as int])[at] == text);
                    }
                    assert(now.push(new[k as int])[now.len() as int] == new[k as int]);
                }
            }
            table.set(names[k].clone(), ());
        }
        proof {
            assert(new.take(new.len() as int) =~= new);
            all = before + new;
        }
    }
    assert(owned_keys@.take(owned_keys@.len() as int) =~= owned_keys@);
    let total: usize = table.len();
    let ghost rows = table.rows();
    let ghost names_of_rows = Seq::new(rows.len(), |i: int| rows[i].0);
    let mut out: Vec<String> = Vec::new();
    assert(texts(out@) =~= names_of_rows.take(0));
    for i in 0..total
        invariant
            rows == table.rows(),
            total == rows.len(),
            names_of_rows == Seq::new(rows.len(), |i: int| rows[i].0),
            texts(out@) == names_of_rows.take(i as int),
    {
        let ghost before = texts(out@);
        out.push(owned(table.name_at(i)));
        assert(texts(out@) =~= before.push(rows[i as int].0));
        assert(names_of_rows.take(i + 1) =~= names_of_rows.take(i as int).push(
            names_of_rows[i as int],
        ));
    }
    proof {
        assert(names_of_rows.take(total as int) =~= names_of_rows);
        assert forall|text: Seq<char>| #[trigger] texts(out@).contains(text) <==> all.contains(
            text,
        ) by {
            if texts(out@).contains(text) {
                let at = choose|at: int| 0 <= at < rows.len() && names_of_rows[at] == text;
                assert(rows[at].0 == text);
                assert(table.has(text));
            }
            if all.contains(text) {
                assert(table.has(text));
                let at = choose|at: int| 0 <= at < rows.len() && #[trigger] rows[at].0 == text;
                assert(names_of_rows[at] == text);
            }
        }
    }
    out
}

/// What the component of a voice action tells of it.
#[derive(Debug)]
pub enum Inspection {
    /// The diagnosis is clear.
    Done(ShortcutDiagnostic),
    /// It depends on who else owns the inspected keys.
    Keys(PendingDiagnostic),
}

/// A diagnosis that waits for the owners of its keys.
#[derive(Debug)]
pub struct PendingDiagnostic {
    pub expected: ExpectedShortcut,
    pub active: bool,
    pub current: Vec<i32>,
    pub defaults: Vec<i32>,
}

impl PendingDiagnostic {
    /// The keys whose owners are asked for: the bound ones, or else the default ones.
    pub open spec fn inspected(self) -> Seq<i32> {
        if self.current@.len() == 0 {
            self.defaults@
        } else {
            self.current@
        }
    }

    pub fn keys(&self) -> (keys: &Vec<i32>)
        ensures
            keys@ == self.inspected(),
    {
        if self.current.len() == 0 {
            &self.defaults
        } else {
            &self.current
        }
    }

    /// Ends the diagnosis, from the owners of each of the inspected keys.
    pub fn conclude(self, owned_keys: &Vec<(i32, Vec<KGlobalShortcutInfo>)>) -> (r:
        ShortcutDiagnostic)
        ensures
            r.label == self.expected.label,
            r.current == self.current,
            r.defaults == self.defaults,
            sorted_texts(texts(r.conflicts@)),
            forall|text: Seq<char>| #[trigger]
                texts(r.conflicts@).contains(text) <==> all_conflicts(
                    owned_keys@,
                    self.expected.component_id@,
                    self.expected.action_id@,
                ).contains(text),
            r.state == shortcut_state(
                self.active,
                self.current@.len() > 0,
                r.conflicts@.len() > 0,
            ),
    {
        let conflicts = collect_conflicts(
            owned_keys,
            self.expected.component_id,
            self.expected.action_id,
        );
        let state = classify_shortcut(self.active, &self.current, &conflicts);
        ShortcutDiagnostic {
            label: self.expected.label,
            state,
            current: self.current,
            defaults: self.defaults,
            conflicts,
        }
    }
}

/// A component stands among the registered ones.
pub fn is_registered(components: &Vec<String>, expected: &ExpectedShortcut) -> (r: bool)
    ensures
        r == texts(components@).contains(expected.component_path@),
{
    for i in 0..components.len()
        invariant
            forall|k: int| 0 <= k < i ==> (#[trigger] components@[k])@ != expected.component_path@,
    {
        if same_text(components[i].as_str(), expected.component_path) {
            assert(texts(components@)[i as int] == expected.component_path@);
            return true;
        }
    }
    proof {
        assert forall|k: int| 0 <= k < texts(components@).len() implies texts(components@)[k]
            != expected.component_path@ by {
            assert(components@[k]@ != expected.component_path@);
        }
    }
    false
}

/// The first shortcut from position `i` on that belongs to the action.
pub open spec fn action_at(infos: Seq<KGlobalShortcutInfo>, action: Seq<char>, i: int) -> Option<
    KGlobalShortcutInfo,
>
    decreases infos.len() - i,
{
    if i < 0 || i >= infos.len() {
        None
    } else if infos[i].0@ == action {
        Some(infos[i])
    } else {
        action_at(infos, action, i + 1)
    }
}

/// Nothing but the state is known.
pub open spec fn bare_diagnostic(r: Inspection, label: Seq<char>, state: ShortcutState) -> bool {
    &&& r matches Inspection::Done(diagnostic)
    &&& diagnostic.label@ == label
    &&& diagnostic.state == state
    &&& diagnostic.current@.len() == 0
    &&& diagnostic.defaults@.len() == 0
    &&& diagnostic.conflicts@.len() == 0
}

fn nothing_known(label: &'static str, state: ShortcutState) -> (r: Inspection)
    ensures
        bare_diagnostic(r, label@, state),
{
    Inspection::Done(
        ShortcutDiagnostic {
            label,
            state,
            current: Vec::new(),
            defaults: Vec::new(),
            conflicts: Vec::new(),
        },
    )
}

/// Looks a voice action up; `component` is what its component answered, where it is registered:
/// whether it is active, and its shortcuts.
pub fn diagnose_shortcut(
    expected: ExpectedShortcut,
    component: Option<(bool, Vec<KGlobalShortcutInfo>)>,
) -> (r: Inspection)
    ensures
        match component {
            None => bare_diagnostic(r, expected.label@, ShortcutState::MissingComponent),
            Some((active, infos)) => match action_at(infos@, expected.action_id@, 0) {
                None => bare_diagnostic(r, expected.label@, ShortcutState::MissingAction),
                Some(info) => {
                    &&& r matches Inspection::Keys(pending)
                    &&& pending.expected == expected
                    &&& pending.active == active
                    &&& pending.current@ == bound(info.6@)
                    &&& pending.defaults@ == bound(info.7@)
                },
            },
        },
{
    let (active, infos) = match component {
        Some(component) => component,
        None => {
            return nothing_known(expected.label, ShortcutState::MissingComponent);
        },
    };
    for i in 0..infos.len()
        invariant
            action_at(infos@, expected.action_id@, 0) == action_at(
                infos@,
                expected.action_id@,
                i as int,
            ),
            component == Some((active, infos)),
    {
        if same_text(infos[i].0.as_str(), expected.action_id) {
            return Inspection::Keys(
                PendingDiagnostic {
                    expected,
                    active,
                    current: bound_shortcuts(&infos[i].6),
                    defaults: bound_shortcuts(&infos[i].7),
                },
            );
        }
    }
    nothing_known(expected.label, ShortcutState::MissingAction)
}

/// The word for all diagnoses together.
pub open spec fn overall_word(diagnostics: Seq<ShortcutDiagnostic>) -> Seq<char> {
    if exists|i: int|
        0 <= i < diagnostics.len() && (#[trigger] diagnostics[i]).state == ShortcutState::Conflict {
        "conflict"@
    } else if forall|i: int|
        0 <= i < diagnostics.len() ==> (#[trigger] diagnostics[i]).state == ShortcutState::Fine {
        "ok"@
    } else {
        "incomplete"@
    }
}

pub fn overall_state(diagnostics: &Vec<ShortcutDiagnostic>) -> (r: &'static str)
    ensures
        r@ == overall_word(diagnostics@),
{
    let mut fine = true;
    for i in 0..diagnostics.len()
        invariant
            forall|k: int|
                0 <= k < i ==> (#[trigger] diagnostics@[k]).state != ShortcutState::Conflict,
            fine == forall|k: int|
                0 <= k < i ==> (#[trigger] diagnostics@[k]).state == ShortcutState::Fine,
    {
        match diagnostics[i].state {
            ShortcutState::Conflict => {
                return "conflict";
            },
            ShortcutState::Fine => {},
            _ => {
                assert(diagnostics@[i as int].state != ShortcutState::Fine);
                fine = false;
            },
        }
    }
    if fine {
        "ok"
    } else {
        "incomplete"
    }
}

pub open spec fn shown_keys(keys: Seq<i32>) -> Seq<char> {
    if keys.len() == 0 {
        "none"@
    } else {
        joined_text(shortcut_texts(keys), "|"@)
    }
}

/// The line that is printed for a diagnosis.
pub open spec fn diagnostic_line(diagnostic: ShortcutDiagnostic) -> Seq<char> {
    "shortcut."@ + diagnostic.label@ + "="@ + diagnostic.state.word() + " current="@ + shown_keys(
        diagnostic.current@,
    ) + " default="@ + shown_keys(diagnostic.defaults@) + (if diagnostic.conflicts@.len() == 0 {
        Seq::empty()
    } else {
        " conflicts="@ + joined_text(texts(diagnostic.conflicts@), ","@)
    })
}

impl ShortcutDiagnostic {
    pub fn line(&self) -> (text: String)
        ensures
            text@ == diagnostic_line(*self),
    {
        let current = format_shortcuts(&self.current);
        let defaults = format_shortcuts(&self.defaults);
        let mut text = join3("shortcut.", self.label, "=");
        text.append(self.state.as_str());
        text.append(" current=");
        text.append(current.as_str());
        text.append(" default=");
        text.append(defaults.as_str());
        if self.conflicts.len() > 0 {
            let conflicts = join_text(&self.conflicts, ",");
            let ghost before = text@;
            text.append(" conflicts=");
            text.append(conflicts.as_str());
            assert(text@ =~= before + (" conflicts="@ + conflicts@));
        } else {
            assert(text@ + Seq::<char>::empty() =~= text@);
        }
        text
    }
}

/// A shortcut that is shared with another action is never called fine.
pub proof fn law_conflict_is_never_fine(active: bool, bound: bool)
    ensures
        shortcut_state(active, bound, true) != ShortcutState::Fine,
        shortcut_state(active, false, false) != ShortcutState::Fine,
        shortcut_state(false, bound, false) != ShortcutState::Fine,
{
}

/// The owner that a shortcut is meant for is not a conflict.
pub proof fn law_expected_owner_is_no_conflict(
    owners: Seq<KGlobalShortcutInfo>,
    component_id: Seq<char>,
    action_id: Seq<char>,
    key: i32,
)
    requires
        forall|i: int|
            0 <= i < owners.len() ==> (#[trigger] owners[i]).2@ == component_id && owners[i].0@
                == action_id,
    ensures
        other_owners(owners, component_id, action_id, key).len() == 0,
    decreases owners.len(),
{
    if owners.len() > 0 {
        let before = owners.drop_last();
        assert forall|i: int| 0 <= i < before.len() implies (#[trigger] before[i]).2@
            == component_id && before[i].0@ == action_id by {
            assert(before[i] == owners[i]);
        }
        law_expected_owner_is_no_conflict(before, component_id, action_id, key);
        assert(owners.last() == owners[owners.len() - 1]);
    }
}

/// A shortcut is fine exactly where its action is registered and active, a key is bound to it and
/// nobody else has the key; what is wrong is told in that order.
pub proof fn law_shortcut_is_fine(active: bool, has_key: bool, conflicting: bool)
    ensures
        shortcut_state(active, has_key, conflicting) == ShortcutState::Fine <==> active && has_key
            && !conflicting,
        shortcut_state(active, has_key, conflicting) == ShortcutState::Inactive <==> !active,
        shortcut_state(active, has_key, conflicting) == ShortcutState::Conflict <==> active
            && conflicting,
        shortcut_state(active, has_key, conflicting) == ShortcutState::Unbound <==> active
            && !conflicting && !has_key,
{
}

/// A character key is shown as the character, a function key by its number; modifiers stand before the
/// key, in one order whatever the shortcut.
pub proof fn law_shortcut_is_shown(key: u32, meta: bool, ctrl: bool, alt: bool, shift: bool)
    requires
        key < 0x0200_0000,
    ensures
        0x21 <= key <= 0x7e ==> key_text(key) == seq![key as u8 as char],
        0x0100_0030 <= key <= 0x0100_0052 ==> key_text(key) == "F"@ + decimal(
            (key - 0x0100_002f) as nat,
        ),
        ({
            let bits = key | (if meta {
                0x1000_0000u32
            } else {
                0
            }) | (if ctrl {
                0x0400_0000u32
            } else {
                0
            }) | (if alt {
                0x0800_0000u32
            } else {
                0
            }) | (if shift {
                0x0200_0000u32
            } else {
                0
            });
            &&& bits < 0x8000_0000
            &&& shortcut_text(bits as i32) == (if meta {
                "Meta+"@
            } else {
                Seq::empty()
            }) + (if ctrl {
                "Ctrl+"@
            } else {
                Seq::empty()
            }) + (if alt {
                "Alt+"@
            } else {
                Seq::empty()
            }) + (if shift {
                "Shift+"@
            } else {
                Seq::empty()
            }) + key_text(key)
        }),
{
    let m: u32 = if meta {
        0x1000_0000u32
    } else {
        0
    };
    let c: u32 = if ctrl {
        0x0400_0000u32
    } else {
        0
    };
    let a: u32 = if alt {
        0x0800_0000u32
    } else {
        0
    };
    let s: u32 = if shift {
        0x0200_0000u32
    } else {
        0
    };
    let bits = key | m | c | a | s;
    assert(bits < 0x8000_0000 && bits & 0x1000_0000u32 == m && bits & 0x0400_0000u32 == c && bits
        & 0x0800_0000u32 == a && bits & 0x0200_0000u32 == s && bits & 0x2000_0000u32 == 0 && bits
        & 0xC1FF_FFFFu32 == key) by (bit_vector)
        requires
            key < 0x0200_0000,
            bits == key | m | c | a | s,
            m == 0 || m == 0x1000_0000u32,
            c == 0 || c == 0x0400_0000u32,
            a == 0 || a == 0x0800_0000u32,
            s == 0 || s == 0x0200_0000u32,
    ;
    assert(shortcut_bits(bits as i32) == bits);
    let shown = (if meta {
        "Meta+"@
    } else {
        Seq::empty()
    }) + (if ctrl {
        "Ctrl+"@
    } else {
        Seq::empty()
    }) + (if alt {
        "Alt+"@
    } else {
        Seq::empty()
    }) + (if shift {
        "Shift+"@
    } else {
        Seq::empty()
    });
    assert(modifiers(bits) =~= shown);
}

/// Every owner of a key but the action itself is told as a conflict, and the action never is.
pub proof fn law_other_owners_conflict(
    owners: Seq<KGlobalShortcutInfo>,
    component_id: Seq<char>,
    action_id: Seq<char>,
    key: i32,
    i: int,
)
    requires
        0 <= i < owners.len(),
    ensures
        owners[i].2@ != component_id || owners[i].0@ != action_id ==> other_owners(
            owners,
            component_id,
            action_id,
            key,
        ).contains(owners[i].2@ + ":"@ + owners[i].0@ + "@"@ + shortcut_text(key)),
        (forall|k: int|
            0 <= k < owners.len() ==> (#[trigger] owners[k]).2@ == component_id && owners[k].0@
                == action_id) ==> other_owners(owners, component_id, action_id, key).len() == 0,
    decreases owners.len(),
{
    let before = owners.drop_last();
    let told = other_owners(before, component_id, action_id, key);
    let all = other_owners(owners, component_id, action_id, key);
    let text = owners[i].2@ + ":"@ + owners[i].0@ + "@"@ + shortcut_text(key);
    if i < before.len() {
        law_other_owners_conflict(before, component_id, action_id, key, i);
        if told.contains(text) {
            let k = choose|k: int| 0 <= k < told.len() && told[k] == text;
            assert(all[k] == text);
        }
    } else if foreign(owners[i], component_id, action_id) {
        assert(all[told.len() as int] == text);
    }
    if forall|k: int|
        0 <= k < owners.len() ==> (#[trigger] owners[k]).2@ == component_id && owners[k].0@
            == action_id {
        assert forall|k: int| 0 <= k < before.len() implies (#[trigger] before[k]).2@
            == component_id && before[k].0@ == action_id by {
            assert(before[k] == owners[k]);
        }
        lemma_no_other_owners(before, component_id, action_id, key);
        assert(owners[owners.len() - 1].2@ == component_id);
    }
}

proof fn lemma_no_other_owners(
    owners: Seq<KGlobalShortcutInfo>,
    component_id: Seq<char>,
    action_id: Seq<char>,
    key: i32,
)
    requires
        forall|k: int|
            0 <= k < owners.len() ==> (#[trigger] owners[k]).2@ == component_id && owners[k].0@
                == action_id,
    ensures
        other_owners(owners, component_id, action_id, key).len() == 0,
    decreases owners.len(),
{
    if owners.len() > 0 {
        let before = owners.drop_last();
        assert forall|k: int| 0 <= k < before.len() implies (#[trigger] before[k]).2@
            == component_id && before[k].0@ == action_id by {
            assert(before[k] == owners[k]);
        }
        lemma_no_other_owners(before, component_id, action_id, key);
        assert(owners[owners.len() - 1].2@ == component_id);
    }
}

/// The shortcut of an action is the first one that bears its name.
pub proof fn law_action_goes_by_its_name(
    infos: Seq<KGlobalShortcutInfo>,
    action: Seq<char>,
    i: int,
)
    requires
        0 <= i <= infos.len(),
        forall|k: int| 0 <= k < i ==> (#[trigger] infos[k]).0@ != action,
        i == infos.len() || infos[i].0@ == action,
    ensures
        i < infos.len() ==> action_at(infos, action, 0) == Some(infos[i]),
        i == infos.len() ==> action_at(infos, action, 0) is None,
{
    lemma_action_from(infos, action, 0, i);
}

proof fn lemma_action_from(
    infos: Seq<KGlobalShortcutInfo>,
    action: Seq<char>,
    from: int,
    i: int,
)
    requires
        0 <= from <= i <= infos.len(),
        forall|k: int| from <= k < i ==> (#[trigger] infos[k]).0@ != action,
        i == infos.len() || infos[i].0@ == action,
    ensures
        i < infos.len() ==> action_at(infos, action, from) == Some(infos[i]),
        i == infos.len() ==> action_at(infos, action, from) is None,
    decreases i - from,
{
    if from < i {
        assert(infos[from].0@ != action);
        lemma_action_from(infos, action, from + 1, i);
    }
}

} // verus!
