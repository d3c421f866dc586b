//! Messages with buttons.

use vstd::prelude::*;

verus! {

/// A button: what it shows, and what it sends when it is pressed.
#[derive(Clone, Debug, PartialEq, Eq)]
pub struct Button {
    pub label: String,
    pub data: String,
}

#[verifier::ext_equal]
pub struct ButtonModel {
    pub label: Seq<char>,
    pub data: Seq<char>,
}

impl View for Button {
    type V = ButtonModel;

    open spec fn view(&self) -> ButtonModel {
        ButtonModel { label: self.label@, data: self.data@ }
    }
}

/// Rows of buttons.
#[derive(Clone, Debug, PartialEq, Eq)]
pub struct Keyboard {
    pub rows: Vec<Vec<Button>>,
}

pub type KeyboardModel = Seq<Seq<ButtonModel>>;

pub open spec fn row_model(row: Seq<Button>) -> Seq<ButtonModel> {
    Seq::new(row.len(), |i: int| row[i]@)
}

impl View for Keyboard {
    type V = KeyboardModel;

    open spec fn view(&self) -> KeyboardModel {
        Seq::new(self.rows@.len(), |i: int| row_model(self.rows@[i]@))
    }
}

pub open spec fn button_of(label: Seq<char>, data: Seq<char>) -> ButtonModel {
    ButtonModel { label, data }
}

pub fn button(label: &str, data: &str) -> (r: Button)
    ensures
        r@ == button_of(label@, data@),
{
    Button { label: label.to_owned(), data: data.to_owned() }
}

impl Keyboard {
    pub fn new() -> (r: Keyboard)
        ensures
            r@ == Seq::<Seq<ButtonModel>>::empty(),
    {
        let r = Keyboard { rows: Vec::new() };
        assert(r@ =~= Seq::<Seq<ButtonModel>>::empty());
        r
    }

    /// Adds a row with one button.
    pub fn push_one(&mut self, a: Button)
        ensures
            final(self)@ == old(self)@.push(seq![a@]),
    {
        let mut row: Vec<Button> = Vec::new();
        row.push(a);
        assert(row_model(row@) =~= seq![a@]);
        self.rows.push(row);
        assert(self@ =~= old(self)@.push(seq![a@]));
    }

    /// Adds a row with two buttons.
    pub fn push_two(&mut self, a: Button, b: Button)
        ensures
            final(self)@ == old(self)@.push(seq![a@, b@]),
    {
        let mut row: Vec<Button> = Vec::new();
        row.push(a);
        row.push(b);
        assert(row_model(row@) =~= seq![a@, b@]);
        self.rows.push(row);
        assert(self@ =~= old(self)@.push(seq![a@, b@]));
    }
}

/// A message to send.
#[derive(Clone, Debug, PartialEq, Eq)]
pub struct Reply {
    pub text: String,
    /// The text is HTML.
    pub html: bool,
    pub keyboard: Option<Keyboard>,
}

#[verifier::ext_equal]
pub struct ReplyModel {
    pub text: Seq<char>,
    pub html: bool,
    pub keyboard: Option<KeyboardModel>,
}

impl View for Reply {
    type V = ReplyModel;

    open spec fn view(&self) -> ReplyModel {
        ReplyModel {
            text: self.text@,
            html: self.html,
            keyboard: match self.keyboard {
                Some(k) => Some(k@),
                None => None,
            },
        }
    }
}

/// A message of plain text.
pub open spec fn plain(text: Seq<char>) -> ReplyModel {
    ReplyModel { text, html: false, keyboard: None }
}

/// A message of HTML.
pub open spec fn html(text: Seq<char>) -> ReplyModel {
    ReplyModel { text, html: true, keyboard: None }
}

pub open spec fn plain_with(text: Seq<char>, keyboard: KeyboardModel) -> ReplyModel {
    ReplyModel { text, html: false, keyboard: Some(keyboard) }
}

pub open spec fn html_with(text: Seq<char>, keyboard: KeyboardModel) -> ReplyModel {
    ReplyModel { text, html: true, keyboard: Some(keyboard) }
}

impl Reply {
    pub fn plain(text: String) -> (r: Reply)
        ensures
            r@ == plain(text@),
    {
        Reply { text, html: false, keyboard: None }
    }

    pub fn say(text: &str) -> (r: Reply)
        ensures
            r@ == plain(text@),
    {
        Reply { text: text.to_owned(), html: false, keyboard: None }
    }

    pub fn html(text: String) -> (r: Reply)
        ensures
            r@ == html(text@),
    {
        Reply { text, html: true, keyboard: None }
    }

    pub fn plain_with(text: String, keyboard: Keyboard) -> (r: Reply)
        ensures
            r@ == plain_with(text@, keyboard@),
    {
        Reply { text, html: false, keyboard: Some(keyboard) }
    }

    pub fn html_with(text: String, keyboard: Keyboard) -> (r: Reply)
        ensures
            r@ == html_with(text@, keyboard@),
    {
        Reply { text, html: true, keyboard: Some(keyboard) }
    }
}

} // verus!
