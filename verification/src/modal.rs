//! Plain-value models of the modal dialogs: the prompt modal that asks the
//! user for one value, and the error modal that displays a failure. The
//! drawing layer and the input plumbing around them live outside the
//! library; these types carry the state the dialogs are built from.

use vstd::prelude::*;

verus! {

/// A request for a single value from the user.
#[derive(Clone, Debug)]
pub struct Prompt {
    /// Tell the user what they are being asked for.
    pub message: String,
    /// Value to pre-fill the text box with.
    pub default: Option<String>,
    /// Whether the entered value should be masked on screen.
    pub sensitive: bool,
}

pub struct PromptView {
    pub message: Seq<char>,
    pub default: Option<Seq<char>>,
    pub sensitive: bool,
}

impl View for Prompt {
    type V = PromptView;

    open spec fn view(&self) -> PromptView {
        PromptView {
            message: self.message@,
            default: match self.default {
                Option::Some(d) => Option::Some(d@),
                Option::None => Option::None,
            },
            sensitive: self.sensitive,
        }
    }
}

/// Inner state for the prompt modal.
#[derive(Clone, Debug)]
pub struct PromptModal {
    /// Modal title, from the prompt message.
    title: String,
    /// Flag set before closing to indicate the entered value should be
    /// submitted.
    submit: bool,
    /// Contents of the text box.
    text: String,
    /// Whether the text is masked on screen.
    sensitive: bool,
}

pub struct PromptModalView {
    pub title: Seq<char>,
    pub submit: bool,
    pub text: Seq<char>,
    pub sensitive: bool,
}

impl View for PromptModal {
    type V = PromptModalView;

    closed spec fn view(&self) -> PromptModalView {
        PromptModalView {
            title: self.title@,
            submit: self.submit,
            text: self.text@,
            sensitive: self.sensitive,
        }
    }
}

impl PromptModal {
    /// Build the modal for a prompt: titled with the prompt's message, its
    /// text box pre-filled with the default value if one is set, and not
    /// yet marked for submission.
    pub fn new(prompt: Prompt) -> (r: PromptModal)
        ensures
            r@.title == prompt@.message,
            !r@.submit,
            r@.text == (match prompt@.default {
                Option::Some(d) => d,
                Option::None => Seq::<char>::empty(),
            }),
            r@.sensitive == prompt@.sensitive,
    {
        let text = match prompt.default {
            Some(d) => d,
            None => String::new(),
        };
        PromptModal { title: prompt.message, submit: false, text, sensitive: prompt.sensitive }
    }

    /// The modal's title.
    pub fn title(&self) -> (r: &String)
        ensures
            r@ == self@.title,
    {
        &self.title
    }

    /// The current contents of the text box.
    pub fn text(&self) -> (r: &String)
        ensures
            r@ == self@.text,
    {
        &self.text
    }

    /// Replace the contents of the text box.
    pub fn set_text(&mut self, text: String)
        ensures
            final(self)@ == (PromptModalView { text: text@, ..old(self)@ }),
    {
        self.text = text;
    }

    /// Mark the entered value for submission when the modal closes.
    pub fn submit(&mut self)
        ensures
            final(self)@ == (PromptModalView { submit: true, ..old(self)@ }),
    {
        self.submit = true;
    }

    /// Whether the entered value should be submitted on close.
    pub fn should_submit(&self) -> (r: bool)
        ensures
            r == self@.submit,
    {
        self.submit
    }
}

/// A popup displaying an error message to the user.
#[derive(Clone, Debug)]
pub struct ErrorModal(pub String);

impl View for ErrorModal {
    type V = Seq<char>;

    open spec fn view(&self) -> Seq<char> {
        self.0@
    }
}

impl ErrorModal {
    /// The message shown in the popup.
    pub fn message(&self) -> (r: &String)
        ensures
            r@ == self@,
    {
        &self.0
    }
}

} // verus!
