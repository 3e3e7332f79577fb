//! How the page's form controls become native Win32 controls: which window
//! class and style each kind gets, what it first shows, and which control
//! notifications are forwarded back to the renderer.
use vstd::prelude::*;

verus! {

pub const WS_TABSTOP: u32 = 0x0001_0000;
pub const WS_VSCROLL: u32 = 0x0020_0000;
pub const ES_AUTOHSCROLL: u32 = 0x0080;
pub const ES_PASSWORD: u32 = 0x0020;
pub const ES_MULTILINE: u32 = 0x0004;
pub const ES_AUTOVSCROLL: u32 = 0x0040;
pub const BS_OWNERDRAW: u32 = 0x000B;
pub const CBS_DROPDOWNLIST: u32 = 0x0003;
/// Command identifier of the first page control; the n-th control has this plus n.
pub const ID_PAGE_CONTROL_BASE: usize = 2000;
/// Notification codes of the controls.
pub const BN_CLICKED: usize = 0;
pub const CBN_SELCHANGE: usize = 1;
pub const EN_CHANGE: usize = 0x0300;

/// The kind of a page form control; `Other` stands for every kind that is edited
/// as a single line of text without further distinction.
#[derive(Clone, Copy, Debug, PartialEq, Eq, Structural)]
pub enum ControlKind {
    Text,
    TextArea,
    Password,
    Search,
    Select,
    Submit,
    Button,
    Reset,
    Other,
}

/// The Win32 window class of a native control.
#[derive(Clone, Copy, Debug, PartialEq, Eq, Structural)]
pub enum NativeClass {
    Button,
    ComboBox,
    Edit,
}

impl NativeClass {
    /// The class name passed to `CreateWindowExW`.
    pub fn name(&self) -> (s: &'static str)
        ensures
            s@ == match *self {
                NativeClass::Button => "BUTTON"@,
                NativeClass::ComboBox => "COMBOBOX"@,
                NativeClass::Edit => "EDIT"@,
            },
    {
        match self {
            NativeClass::Button => "BUTTON",
            NativeClass::ComboBox => "COMBOBOX",
            NativeClass::Edit => "EDIT",
        }
    }
}

/// Which of the control's strings the native window starts with.
#[derive(Clone, Copy, Debug, PartialEq, Eq, Structural)]
pub enum InitialText {
    Label,
    Value,
    Empty,
}

/// A native control's class, style bits and initial text.
#[derive(Clone, Copy, Debug, PartialEq, Eq, Structural)]
pub struct NativeWindowSpec {
    pub class: NativeClass,
    pub style: u32,
    pub text: InitialText,
}

pub open spec fn is_button_kind(kind: ControlKind) -> bool {
    kind == ControlKind::Submit || kind == ControlKind::Button || kind == ControlKind::Reset
}

pub open spec fn is_text_kind(kind: ControlKind) -> bool {
    kind == ControlKind::Text || kind == ControlKind::TextArea || kind == ControlKind::Password
        || kind == ControlKind::Search
}

pub open spec fn spec_native_window(kind: ControlKind) -> NativeWindowSpec {
    if is_button_kind(kind) {
        NativeWindowSpec { class: NativeClass::Button, style: BS_OWNERDRAW | WS_TABSTOP, text: InitialText::Label }
    } else if kind == ControlKind::Select {
        NativeWindowSpec {
            class: NativeClass::ComboBox,
            style: CBS_DROPDOWNLIST | WS_TABSTOP | WS_VSCROLL,
            text: InitialText::Empty,
        }
    } else if kind == ControlKind::Password {
        NativeWindowSpec { class: NativeClass::Edit, style: WS_TABSTOP | ES_AUTOHSCROLL | ES_PASSWORD, text: InitialText::Value }
    } else if kind == ControlKind::TextArea {
        NativeWindowSpec { class: NativeClass::Edit, style: WS_TABSTOP | ES_MULTILINE | ES_AUTOVSCROLL, text: InitialText::Value }
    } else {
        NativeWindowSpec { class: NativeClass::Edit, style: WS_TABSTOP | ES_AUTOHSCROLL, text: InitialText::Value }
    }
}

/// Buttons are owner-drawn buttons showing their label, selects are drop-down
/// lists, every other kind is an edit control holding the value.
pub fn native_window(kind: ControlKind) -> (w: NativeWindowSpec)
    ensures
        w == spec_native_window(kind),
{
    match kind {
        ControlKind::Submit | ControlKind::Button | ControlKind::Reset => {
            NativeWindowSpec { class: NativeClass::Button, style: BS_OWNERDRAW | WS_TABSTOP, text: InitialText::Label }
        },
        ControlKind::Select => NativeWindowSpec {
            class: NativeClass::ComboBox,
            style: CBS_DROPDOWNLIST | WS_TABSTOP | WS_VSCROLL,
            text: InitialText::Empty,
        },
        ControlKind::Password => NativeWindowSpec {
            class: NativeClass::Edit,
            style: WS_TABSTOP | ES_AUTOHSCROLL | ES_PASSWORD,
            text: InitialText::Value,
        },
        ControlKind::TextArea => NativeWindowSpec {
            class: NativeClass::Edit,
            style: WS_TABSTOP | ES_MULTILINE | ES_AUTOVSCROLL,
            text: InitialText::Value,
        },
        _ => NativeWindowSpec { class: NativeClass::Edit, style: WS_TABSTOP | ES_AUTOHSCROLL, text: InitialText::Value },
    }
}

/// The option a drop-down list starts on: the selected index, kept inside the list.
pub fn initial_selection(selected_index: usize, option_count: usize) -> (i: usize)
    ensures
        i == if option_count == 0 {
            0
        } else if selected_index < option_count {
            selected_index
        } else {
            (option_count - 1) as usize
        },
{
    let last = option_count.saturating_sub(1);
    if selected_index < last {
        selected_index
    } else {
        last
    }
}

/// Text-like controls with a placeholder show it as a cue banner.
pub fn shows_placeholder(kind: ControlKind, placeholder_empty: bool) -> (b: bool)
    ensures
        b == (!placeholder_empty && is_text_kind(kind)),
{
    !placeholder_empty && match kind {
        ControlKind::Text | ControlKind::TextArea | ControlKind::Password | ControlKind::Search => true,
        _ => false,
    }
}

/// What a control notification asks the renderer to learn.
#[derive(Clone, Copy, Debug, PartialEq, Eq, Structural)]
pub enum ControlCommand {
    /// The text or selection of the control at this index changed.
    Text(usize),
    /// The button at this index was pressed.
    Activate(usize),
}

pub open spec fn spec_control_command(id: usize, notification: usize, kinds: Seq<ControlKind>) -> Option<ControlCommand> {
    if id < ID_PAGE_CONTROL_BASE || id - ID_PAGE_CONTROL_BASE >= kinds.len() {
        None
    } else {
        let index = (id - ID_PAGE_CONTROL_BASE) as usize;
        let kind = kinds[index as int];
        if is_text_kind(kind) && notification == EN_CHANGE {
            Some(ControlCommand::Text(index))
        } else if kind == ControlKind::Select && notification == CBN_SELCHANGE {
            Some(ControlCommand::Text(index))
        } else if is_button_kind(kind) && notification == BN_CLICKED {
            Some(ControlCommand::Activate(index))
        } else {
            None
        }
    }
}

/// Maps a `WM_COMMAND` from the page control with command identifier `id` to
/// what is forwarded; `kinds` lists the kinds of the page's controls in order.
pub fn control_command(id: usize, notification: usize, kinds: &Vec<ControlKind>) -> (c: Option<ControlCommand>)
    ensures
        c == spec_control_command(id, notification, kinds@),
{
    if id < ID_PAGE_CONTROL_BASE {
        return None;
    }
    let index = id - ID_PAGE_CONTROL_BASE;
    if index >= kinds.len() {
        return None;
    }
    let kind = kinds[index];
    let text_kind = match kind {
        ControlKind::Text | ControlKind::TextArea | ControlKind::Password | ControlKind::Search => true,
        _ => false,
    };
    let button_kind = match kind {
        ControlKind::Submit | ControlKind::Button | ControlKind::Reset => true,
        _ => false,
    };
    if text_kind && notification == EN_CHANGE {
        Some(ControlCommand::Text(index))
    } else if kind == ControlKind::Select && notification == CBN_SELCHANGE {
        Some(ControlCommand::Text(index))
    } else if button_kind && notification == BN_CLICKED {
        Some(ControlCommand::Activate(index))
    } else {
        None
    }
}

/// After the controls were rebuilt, the first one for the DOM node that had
/// focus gets it back.
pub fn refocus_index(nodes: &Vec<u64>, focused_node: Option<u64>) -> (i: Option<usize>)
    ensures
        match focused_node {
            None => i is None,
            Some(n) => match i {
                Some(k) => k < nodes.len() && nodes@[k as int] == n && forall|j: int| 0 <= j < k ==> nodes@[j] != n,
                None => forall|j: int| 0 <= j < nodes.len() ==> nodes@[j] != n,
            },
        },
{
    let node = match focused_node {
        None => return None,
        Some(n) => n,
    };
    let mut k: usize = 0;
    while k < nodes.len()
        invariant
            k <= nodes.len(),
            focused_node == Some(node),
            forall|j: int| 0 <= j < k ==> nodes@[j] != node,
        decreases nodes.len() - k,
    {
        if nodes[k] == node {
            return Some(k);
        }
        k = k + 1;
    }
    None
}

} // verus!
