//! The keys of the dashboard.

use vstd::prelude::*;

use crate::dashboard;
use crate::dashboard::{DashModel, Message, MessageModel};
use crate::number;
use crate::scanner::TransportPref;
use crate::state;
use crate::state::{ScanPreset, StateModel};
use crate::text;

verus! {

/// What `str::to_lowercase` makes of a text.
pub uninterp spec fn lowercase(s: Seq<char>) -> Seq<char>;

/// `str::to_lowercase`: the lowercase equivalent of a text, by the rules of Unicode. Of a text of
/// ASCII characters these change the letters `A` to `Z` alone.
#[verifier::external_body]
fn to_lowercase(s: &str) -> (r: String)
    ensures
        r@ == lowercase(s@),
        (forall|i: int| 0 <= i < s@.len() ==> (#[trigger] s@[i] as u32) < 128) ==> r@
            == text::lower(s@),
{
    s.to_lowercase()
}

/// A key of the keyboard.
#[derive(Debug)]
pub enum KeyPress {
    Enter,
    Escape,
    Character(String),
    Other,
}

/// What a `KeyPress` says.
pub enum KeyModel {
    Enter,
    Escape,
    Character(Seq<char>),
    Other,
}

impl View for KeyPress {
    type V = KeyModel;

    open spec fn view(&self) -> KeyModel {
        match *self {
            KeyPress::Enter => KeyModel::Enter,
            KeyPress::Escape => KeyModel::Escape,
            KeyPress::Character(c) => KeyModel::Character(c@),
            KeyPress::Other => KeyModel::Other,
        }
    }
}

/// The name of a key; empty where it has none.
pub open spec fn key_name(k: KeyModel) -> Seq<char> {
    match k {
        KeyModel::Enter => "enter"@,
        KeyModel::Escape => "escape"@,
        KeyModel::Character(c) => lowercase(c),
        KeyModel::Other => Seq::empty(),
    }
}

/// The name of a key; empty where it has none. The shift key makes no difference to a letter.
pub fn key_id(key: &KeyPress) -> (r: String)
    ensures
        r@ == key_name(key@),
        key@ matches KeyModel::Character(c) ==> ((forall|i: int|
            0 <= i < c.len() ==> (#[trigger] c[i] as u32) < 128) ==> r@ == text::lower(c)),
{
    match key {
        KeyPress::Enter => "enter".to_owned(),
        KeyPress::Escape => "escape".to_owned(),
        KeyPress::Character(c) => to_lowercase(c.as_str()),
        KeyPress::Other => {
            let none = String::new();
            assert(none@ =~= Seq::empty());
            none
        },
    }
}

/// A key goes down or up.
#[derive(Debug)]
pub struct KeyEvent {
    pub key: KeyPress,
    pub down: bool,
    /// A widget has taken the key for itself.
    pub captured: bool,
    pub control: bool,
    pub alt: bool,
    pub logo: bool,
}

/// The message of a key; none where it is not for the dashboard. A key that goes down together
/// with control, alt or logo belongs to the desktop.
pub open spec fn event_message(e: KeyEvent) -> Option<MessageModel> {
    if e.captured {
        None
    } else if !e.down {
        Some(MessageModel::KeyUp(key_name(e.key@)))
    } else if e.control || e.alt || e.logo {
        None
    } else {
        Some(MessageModel::KeyDown(key_name(e.key@)))
    }
}

/// The message of a key; none where it is not for the dashboard.
pub fn message_of_key(e: &KeyEvent) -> (r: Option<Message>)
    ensures
        dashboard::message_of(r) == event_message(*e),
{
    if e.captured {
        return None;
    }
    let name = key_id(&e.key);
    if !e.down {
        return Some(Message::KeyUp(name));
    }
    if e.control || e.alt || e.logo {
        return None;
    }
    Some(Message::KeyDown(name))
}

/// A button or a box that the dashboard shows to the user in a state, told by its message.
pub open spec fn on_screen(m: StateModel, msg: MessageModel) -> bool {
    match msg {
        MessageModel::Scan => true,
        MessageModel::SavePdf => true,
        MessageModel::EmailPdf => true,
        MessageModel::SetPreset(_) => true,
        MessageModel::SetTransport(_) => true,
        MessageModel::ToggleOcr(b) => b == !m.ocr_enabled,
        MessageModel::ToggleContinuous(b) => b == !m.continuous,
        MessageModel::ToggleLongReceipt(b) => b == !m.long_receipt,
        MessageModel::ContinueFeed => m.prompt_continue,
        MessageModel::CancelFeed => true,
        _ => false,
    }
}

/// The key of a button or a box.
pub open spec fn key_for(msg: MessageModel) -> Seq<char> {
    match msg {
        MessageModel::Scan => "s"@,
        MessageModel::SavePdf => "p"@,
        MessageModel::EmailPdf => "e"@,
        MessageModel::SetPreset(ScanPreset::Web) => "1"@,
        MessageModel::SetPreset(ScanPreset::Email) => "2"@,
        MessageModel::SetPreset(ScanPreset::Document) => "3"@,
        MessageModel::SetPreset(ScanPreset::Photo) => "4"@,
        MessageModel::SetPreset(ScanPreset::Fine) => "5"@,
        MessageModel::SetTransport(TransportPref::Auto) => "a"@,
        MessageModel::SetTransport(TransportPref::Wifi) => "w"@,
        MessageModel::SetTransport(TransportPref::Usb) => "u"@,
        MessageModel::ToggleOcr(_) => "o"@,
        MessageModel::ToggleContinuous(_) => "c"@,
        MessageModel::ToggleLongReceipt(_) => "l"@,
        MessageModel::ContinueFeed => "enter"@,
        _ => "escape"@,
    }
}

proof fn lemma_keys_differ()
    ensures
        "s"@ == seq!['s'],
        "p"@ == seq!['p'],
        "e"@ == seq!['e'],
        "o"@ == seq!['o'],
        "c"@ == seq!['c'],
        "l"@ == seq!['l'],
        "a"@ == seq!['a'],
        "w"@ == seq!['w'],
        "u"@ == seq!['u'],
        "1"@ == seq!['1'],
        "2"@ == seq!['2'],
        "3"@ == seq!['3'],
        "4"@ == seq!['4'],
        "5"@ == seq!['5'],
        "["@ == seq!['['],
        "]"@ == seq![']'],
        "enter"@.len() == 5,
        "escape"@.len() == 6,
{
    reveal_strlit("s");
    reveal_strlit("p");
    reveal_strlit("e");
    reveal_strlit("o");
    reveal_strlit("c");
    reveal_strlit("l");
    reveal_strlit("a");
    reveal_strlit("w");
    reveal_strlit("u");
    reveal_strlit("1");
    reveal_strlit("2");
    reveal_strlit("3");
    reveal_strlit("4");
    reveal_strlit("5");
    reveal_strlit("[");
    reveal_strlit("]");
    reveal_strlit("enter");
    reveal_strlit("escape");
}

/// Everything that the dashboard offers to a click can be done with a key, with the same outcome.
pub proof fn every_action_has_a_key(d: DashModel, m: StateModel, msg: MessageModel)
    requires
        on_screen(m, msg),
    ensures
        dashboard::keyed(d, m, key_for(msg)) == dashboard::acted(d, m, msg),
{
    lemma_keys_differ();
    let k = key_for(msg);
    assert(k.len() == 1 ==> k =~= seq![k[0]]);
    assert forall|c: char| k.len() == 1 && k[0] != c implies k != seq![c] by {
        assert(seq![c][0] == c);
    }
}

/// The keys from 1 on choose the presets in their order.
pub proof fn number_keys_follow_the_presets(m: StateModel, i: int)
    requires
        0 <= i < state::every_preset().len(),
    ensures
        dashboard::key_message(m, number::decimal((i + 1) as nat)) == Some(
            MessageModel::SetPreset(state::every_preset()[i]),
        ),
{
    lemma_keys_differ();
    let k = number::decimal((i + 1) as nat);
    assert(k =~= seq![number::digit_char(i + 1)]);
    assert forall|c: char| k[0] != c implies k != seq![c] by {
        assert(seq![c][0] == c);
    }
}

/// The bracket keys move the choice of a scanner back and on.
pub proof fn bracket_keys_move_the_choice(d: DashModel, m: StateModel)
    requires
        !dashboard::occupied(d, m),
    ensures
        dashboard::keyed(d, m, "["@).m == state::cycled(m, -1),
        dashboard::keyed(d, m, "]"@).m == state::cycled(m, 1),
{
    lemma_keys_differ();
    assert("["@[0] == '[' && "]"@[0] == ']');
}

proof fn lemma_acts_keep_keys(d: DashModel, m: StateModel, msg: MessageModel)
    ensures
        dashboard::acted(d, m, msg).d.pressed == d.pressed,
{
}

proof fn lemma_keys_keep_keys(d: DashModel, m: StateModel, k: Seq<char>)
    ensures
        dashboard::keyed(d, m, k).d.pressed == d.pressed,
{
    if let Some(msg) = dashboard::key_message(m, k) {
        lemma_acts_keep_keys(d, m, msg);
    }
}

/// A key that is held acts once, and can act again after it was let go.
pub proof fn a_held_key_acts_once(d: DashModel, m: StateModel, n: StateModel, k: Seq<char>)
    requires
        !d.pressed.contains(k),
    ensures
        ({
            let first = dashboard::updated(d, m, MessageModel::KeyDown(k));
            let again = dashboard::updated(first.d, n, MessageModel::KeyDown(k));
            let up = dashboard::updated(first.d, n, MessageModel::KeyUp(k));
            &&& first == dashboard::keyed(DashModel { pressed: d.pressed.insert(k), ..d }, m, k)
            &&& again == dashboard::nothing(first.d, n)
            &&& !up.d.pressed.contains(k)
        }),
{
    lemma_keys_keep_keys(DashModel { pressed: d.pressed.insert(k), ..d }, m, k);
}

/// Every key does what it is for, and a key that is for nothing does nothing.
pub proof fn keys_do_what_they_are_for(m: StateModel, k: Seq<char>)
    ensures
        dashboard::key_message(m, "s"@) == Some(MessageModel::Scan),
        dashboard::key_message(m, "p"@) == Some(MessageModel::SavePdf),
        dashboard::key_message(m, "e"@) == Some(MessageModel::EmailPdf),
        dashboard::key_message(m, "o"@) == Some(MessageModel::FlipOcr),
        dashboard::key_message(m, "c"@) == Some(MessageModel::FlipContinuous),
        dashboard::key_message(m, "l"@) == Some(MessageModel::FlipLongReceipt),
        dashboard::key_message(m, "a"@) == Some(MessageModel::SetTransport(TransportPref::Auto)),
        dashboard::key_message(m, "w"@) == Some(MessageModel::SetTransport(TransportPref::Wifi)),
        dashboard::key_message(m, "u"@) == Some(MessageModel::SetTransport(TransportPref::Usb)),
        dashboard::key_message(m, "escape"@) == Some(MessageModel::CancelFeed),
        m.prompt_continue ==> dashboard::key_message(m, "enter"@) == Some(
            MessageModel::ContinueFeed,
        ),
        !m.prompt_continue && !m.waiting_for_paper ==> dashboard::key_message(m, "enter"@) == Some(
            MessageModel::Scan,
        ),
        !m.prompt_continue && m.waiting_for_paper ==> dashboard::key_message(m, "enter"@) is None,
        k.len() == 0 ==> dashboard::key_message(m, k) is None,
        k.len() > 1 && k != "enter"@ && k != "escape"@ ==> dashboard::key_message(m, k) is None,
        k.len() == 1 && dashboard::key_message(m, k) is Some ==> seq![
            's',
            'p',
            'e',
            'o',
            'c',
            'l',
            'a',
            'w',
            'u',
            '1',
            '2',
            '3',
            '4',
            '5',
        ].contains(k[0]),
{
    lemma_keys_differ();
    let all = seq!['s', 'p', 'e', 'o', 'c', 'l', 'a', 'w', 'u', '1', '2', '3', '4', '5'];
    assert(all[0] == 's' && all[1] == 'p' && all[2] == 'e' && all[3] == 'o' && all[4] == 'c'
        && all[5] == 'l' && all[6] == 'a' && all[7] == 'w' && all[8] == 'u' && all[9] == '1'
        && all[10] == '2' && all[11] == '3' && all[12] == '4' && all[13] == '5');
    assert("s"@[0] == 's' && "p"@[0] == 'p' && "e"@[0] == 'e' && "o"@[0] == 'o' && "c"@[0] == 'c');
    assert("l"@[0] == 'l' && "a"@[0] == 'a' && "w"@[0] == 'w' && "u"@[0] == 'u');
    assert("1"@[0] == '1' && "2"@[0] == '2' && "3"@[0] == '3' && "4"@[0] == '4' && "5"@[0] == '5');
    assert("enter"@.len() == 5 && "escape"@.len() == 6);
}

/// A key acts when it goes down alone, and is let go when it comes up; one that a widget takes, or
/// that is pressed with another, does nothing.
pub proof fn keys_act_alone(e: KeyEvent)
    ensures
        e.captured ==> event_message(e) is None,
        !e.captured && !e.down ==> event_message(e) == Some(MessageModel::KeyUp(key_name(e.key@))),
        !e.captured && e.down && !e.control && !e.alt && !e.logo ==> event_message(e) == Some(
            MessageModel::KeyDown(key_name(e.key@)),
        ),
        e.down && (e.control || e.alt || e.logo) ==> event_message(e) is None,
        e.key@ is Enter ==> key_name(e.key@) == "enter"@,
        e.key@ is Escape ==> key_name(e.key@) == "escape"@,
        e.key@ matches KeyModel::Character(c) ==> key_name(e.key@) == lowercase(c),
{
}

/// A message that is no key has the same outcome as ever, and a key that is let go changes nothing
/// but that it is no longer held.
pub proof fn only_keys_are_held(d: DashModel, m: StateModel, msg: MessageModel, k: Seq<char>)
    ensures
        !(msg is KeyDown) && !(msg is KeyUp) ==> dashboard::updated(d, m, msg) == dashboard::acted(
            d,
            m,
            msg,
        ),
        dashboard::updated(d, m, MessageModel::KeyUp(k)) == dashboard::nothing(
            DashModel { pressed: d.pressed.remove(k), ..d },
            m,
        ),
{
}

/// A scanner is taken into use by a choice of one or of the transports alone, by a click or by a
/// key that goes down, and never while something else goes on.
pub proof fn only_choices_connect(d: DashModel, m: StateModel, msg: MessageModel, k: Seq<char>)
    ensures
        !(msg is SelectScanner) && !(msg is SetTransport) ==> !dashboard::connects(d, m, msg),
        dashboard::occupied(d, m) ==> !dashboard::update_connects(d, m, msg),
        !(msg is KeyDown) ==> (dashboard::update_connects(d, m, msg) <==> dashboard::connects(
            d,
            m,
            msg,
        )),
        d.pressed.contains(k) ==> !dashboard::update_connects(d, m, MessageModel::KeyDown(k)),
        !d.pressed.contains("["@) ==> (dashboard::update_connects(
            d,
            m,
            MessageModel::KeyDown("["@),
        ) <==> !dashboard::occupied(d, m) && state::cycles(m, -1)),
        !d.pressed.contains("]"@) ==> (dashboard::update_connects(
            d,
            m,
            MessageModel::KeyDown("]"@),
        ) <==> !dashboard::occupied(d, m) && state::cycles(m, 1)),
        dashboard::connects(d, m, MessageModel::SelectScanner(k)) <==> !dashboard::occupied(d, m)
            && state::selects(m, k),
        !d.pressed.contains("u"@) ==> (dashboard::update_connects(
            d,
            m,
            MessageModel::KeyDown("u"@),
        ) <==> dashboard::connects(d, m, MessageModel::SetTransport(TransportPref::Usb))),
{
    keys_do_what_they_are_for(m, k);
    lemma_keys_differ();
    assert("["@[0] == '[' && "]"@[0] == ']' && "u"@[0] == 'u');
}

} // verus!
