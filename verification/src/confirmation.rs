//! The yes-or-cancel dialog: the selected button, the answer, and where the
//! dialog and its message are placed.
use vstd::prelude::*;
use crate::text::{chars_of, string_push};
use crate::tui::keys::{Key, KeyPress};
use crate::tui::layout::Rect;

verus! {

/// The two buttons.
#[derive(Debug, Clone, Copy, PartialEq, Eq, Structural)]
pub enum ConfirmationButton {
    Yes,
    Cancel,
}

/// The dialog: its message, the selected button and the answer (`None`
/// until one is given).
#[derive(Debug)]
pub struct Confirmation {
    pub message: String,
    pub selected: ConfirmationButton,
    pub result: Option<bool>,
}

impl Confirmation {
    /// The dialog for `message`, with yes selected and no answer.
    pub fn new(message: String) -> (r: Self)
        ensures
            r.message == message,
            r.selected == ConfirmationButton::Yes,
            r.result is None,
    {
        Confirmation { message, selected: ConfirmationButton::Yes, result: None }
    }

    /// Selects yes again and forgets the answer.
    pub fn initialize(&mut self)
        ensures
            final(self).message == old(self).message,
            final(self).selected == ConfirmationButton::Yes,
            final(self).result is None,
    {
        self.selected = ConfirmationButton::Yes;
        self.result = None;
    }

    /// Handles an event, `None` for one that is not a key: left, right and
    /// tab switch the button; enter and space answer with the selected
    /// button, escape answers cancel, and both close the dialog. Returns
    /// whether the dialog stays open.
    pub fn handle_event(&mut self, key: Option<KeyPress>) -> (open: bool)
        ensures
            final(self).message == old(self).message,
            match key {
                Some(k) => match k.code {
                    Key::Left | Key::Right | Key::Tab => open && final(self).result == old(
                        self,
                    ).result && final(self).selected == if old(self).selected
                        == ConfirmationButton::Yes {
                        ConfirmationButton::Cancel
                    } else {
                        ConfirmationButton::Yes
                    },
                    Key::Enter | Key::Char(' ') => !open && final(self).selected == old(
                        self,
                    ).selected && final(self).result == Some(
                        old(self).selected == ConfirmationButton::Yes,
                    ),
                    Key::Esc => !open && final(self).selected == old(self).selected
                        && final(self).result == Some(false),
                    _ => open && final(self).selected == old(self).selected && final(self).result
                        == old(self).result,
                },
                None => open && final(self).selected == old(self).selected && final(self).result
                    == old(self).result,
            },
    {
        if let Some(k) = key {
            match k.code {
                Key::Left | Key::Right | Key::Tab => {
                    self.selected = match self.selected {
                        ConfirmationButton::Yes => ConfirmationButton::Cancel,
                        ConfirmationButton::Cancel => ConfirmationButton::Yes,
                    };
                },
                Key::Enter | Key::Char(' ') => {
                    let is_yes = match self.selected {
                        ConfirmationButton::Yes => true,
                        ConfirmationButton::Cancel => false,
                    };
                    self.result = Some(is_yes);
                    return false;
                },
                Key::Esc => {
                    self.result = Some(false);
                    return false;
                },
                _ => {},
            }
        }
        true
    }

    /// Whether the answer is yes.
    pub fn is_yes(&self) -> (r: bool)
        ensures
            r == (self.result == Some(true)),
    {
        match self.result {
            Some(answer) => answer,
            None => false,
        }
    }
}

/// The widths, in characters, of the lines of `s`, from the place where
/// `cur` characters of the current line were already read, the last of
/// them a carriage return when `after_cr` is set. Lines end at a line feed,
/// which a carriage return before it joins; a last line that no line feed
/// ends counts unless it is empty.
pub open spec fn widths_from(s: Seq<char>, cur: nat, after_cr: bool) -> Seq<nat>
    decreases s.len(),
{
    if s.len() == 0 {
        if cur > 0 {
            seq![cur]
        } else {
            Seq::empty()
        }
    } else if s[0] == '\n' {
        seq![if after_cr && cur > 0 { (cur - 1) as nat } else { cur }] + widths_from(
            s.drop_first(),
            0,
            false,
        )
    } else {
        widths_from(s.drop_first(), cur + 1, s[0] == '\r')
    }
}

/// The widths of the lines that `str::lines` gives for `s`.
pub open spec fn line_widths(s: Seq<char>) -> Seq<nat> {
    widths_from(s, 0, false)
}

/// The largest of `w`, zero when it is empty.
pub open spec fn max_width(w: Seq<nat>) -> nat
    decreases w.len(),
{
    if w.len() == 0 {
        0
    } else {
        let m = max_width(w.drop_last());
        if w.last() > m {
            w.last()
        } else {
            m
        }
    }
}

/// The width of the dialog for `message`: its longest line and eight cells
/// of margin, at least 32, kept to its low 16 bits.
pub open spec fn dialog_width(message: Seq<char>) -> u16 {
    let m = max_width(line_widths(message)) + 8;
    (if m < 32 {
        32
    } else {
        m
    }) as u16
}

/// Where the dialog for `message` stands in `area`: seven rows high,
/// centered, and nowhere when it does not fit.
pub open spec fn dialog_area(area: Rect, message: Seq<char>) -> Option<Rect> {
    let width = dialog_width(message);
    let x = area.x + (if area.width >= width { area.width - width } else { 0 }) / 2;
    let y = area.y + (if area.height >= 7 { area.height - 7 } else { 0 }) / 2;
    if width < 1 || area.width < 1 || area.height < 1 {
        None
    } else if x + width > area.x + area.width || y + 7 > area.y + area.height {
        None
    } else {
        Some(Rect { x: x as u16, y: y as u16, width, height: 7 })
    }
}

/// The widths of the lines of `message`.
pub fn message_line_widths(message: &str) -> (r: Vec<usize>)
    ensures
        r@.map_values(|w: usize| w as nat) == line_widths(message@),
{
    let chars = chars_of(message);
    let mut r: Vec<usize> = Vec::new();
    let mut cur: usize = 0;
    let mut after_cr = false;
    let mut i: usize = 0;
    assert(chars@.skip(0) =~= message@);
    assert(r@.map_values(|w: usize| w as nat) =~= Seq::<nat>::empty());
    assert(Seq::<nat>::empty() + line_widths(message@) =~= line_widths(message@));
    while i < chars.len()
        invariant
            i <= chars@.len(),
            chars@ == message@,
            cur <= i,
            r@.map_values(|w: usize| w as nat) + widths_from(
                chars@.skip(i as int),
                cur as nat,
                after_cr,
            ) == line_widths(message@),
        decreases chars@.len() - i,
    {
        let c = chars[i];
        let ghost rest = chars@.skip(i as int);
        assert(rest[0] == c);
        assert(rest.drop_first() =~= chars@.skip(i + 1));
        if c == '\n' {
            let w = if after_cr && cur > 0 {
                cur - 1
            } else {
                cur
            };
            let ghost before = r@;
            r.push(w);
            assert(r@.map_values(|w: usize| w as nat) =~= before.map_values(|w: usize| w as nat).push(
                w as nat,
            ));
            assert(seq![w as nat] + widths_from(chars@.skip(i + 1), 0, false) =~= widths_from(
                rest,
                cur as nat,
                after_cr,
            ));
            cur = 0;
            after_cr = false;
        } else {
            cur = cur + 1;
            after_cr = c == '\r';
        }
        i = i + 1;
    }
    assert(chars@.skip(i as int) =~= Seq::<char>::empty());
    if cur > 0 {
        let ghost before = r@;
        r.push(cur);
        assert(r@.map_values(|w: usize| w as nat) =~= before.map_values(|w: usize| w as nat).push(
            cur as nat,
        ));
    } else {
        assert(r@.map_values(|w: usize| w as nat) =~= r@.map_values(|w: usize| w as nat)
            + Seq::<nat>::empty());
    }
    r
}

/// The longest of the widths, zero for none.
fn longest(w: &Vec<usize>) -> (r: usize)
    ensures
        r == max_width(w@.map_values(|x: usize| x as nat)),
{
    let mut m: usize = 0;
    let mut i: usize = 0;
    while i < w.len()
        invariant
            i <= w@.len(),
            m == max_width(w@.subrange(0, i as int).map_values(|x: usize| x as nat)),
        decreases w@.len() - i,
    {
        let ghost prefix = w@.subrange(0, i + 1int).map_values(|x: usize| x as nat);
        assert(prefix.drop_last() =~= w@.subrange(0, i as int).map_values(|x: usize| x as nat));
        if w[i] > m {
            m = w[i];
        }
        i = i + 1;
    }
    assert(w@.subrange(0, w@.len() as int) =~= w@);
    m
}

/// Where the dialog for `message` stands in `area`, if it fits.
pub fn confirmation_area(area: Rect, message: &str) -> (r: Option<Rect>)
    requires
        area.fits(),
        max_width(line_widths(message@)) + 8 <= usize::MAX,
        area.x + dialog_width(message@) <= u16::MAX,
        area.y + 7 <= u16::MAX,
    ensures
        r == dialog_area(area, message@),
{
    let widths = message_line_widths(message);
    let longest_line = longest(&widths);
    assert(widths@.map_values(|x: usize| x as nat) == line_widths(message@));
    let wide: usize = if longest_line < 24 {
        32
    } else {
        longest_line + 8
    };
    let width: u16 = wide as u16;
    let height: u16 = 7;
    if width < 1 || area.width < 1 || area.height < 1 {
        return None;
    }
    let x = area.x + (if area.width >= width {
        area.width - width
    } else {
        0
    }) / 2;
    let y = area.y + (if area.height >= height {
        area.height - height
    } else {
        0
    }) / 2;
    if x as u32 + width as u32 > area.x as u32 + area.width as u32 || y as u32 + height as u32
        > area.y as u32 + area.height as u32 {
        return None;
    }
    Some(Rect { x, y, width, height })
}

/// The text of the message, lowered by empty lines so that it stands in the
/// middle of `message_height` rows.
pub open spec fn centered_message(message: Seq<char>, message_height: nat) -> Seq<char> {
    let lines = line_widths(message).len();
    let pad: nat = if lines < message_height {
        ((message_height - lines) / 2) as nat
    } else {
        0
    };
    Seq::new(pad, |i: int| '\n') + message
}

/// The message lowered to the middle of `message_height` rows.
pub fn centered_message_text(message: &str, message_height: usize) -> (r: String)
    ensures
        r@ == centered_message(message@, message_height as nat),
{
    let lines = message_line_widths(message).len();
    let pad: usize = if lines < message_height {
        (message_height - lines) / 2
    } else {
        0
    };
    let mut text = String::new();
    let mut k: usize = 0;
    while k < pad
        invariant
            k <= pad,
            text@ == Seq::new(k as nat, |i: int| '\n'),
        decreases pad - k,
    {
        string_push(&mut text, '\n');
        k = k + 1;
        assert(text@ =~= Seq::new(k as nat, |i: int| '\n'));
    }
    text.append(message);
    assert(text@ =~= centered_message(message@, message_height as nat));
    text
}

} // verus!
