//! Chat turns: who said something, and the parts of what was said.

use vstd::prelude::*;

verus! {

/// The author kind of a turn. A developer turn carries operator
/// instructions.
#[derive(Clone, Copy, Debug, PartialEq, Eq, Structural)]
pub enum Role {
    User,
    Assistant,
    Developer,
}

/// One part of a turn's content.
#[derive(Debug)]
pub enum ContentItem {
    /// Text written by a user or an operator.
    InputText { text: String },
    /// An image, by its address.
    InputImage { image_url: String },
    /// Text produced by the model.
    OutputText { text: String },
    /// A part of a kind that is not understood.
    Other,
}

/// One message in a channel's history.
#[derive(Debug)]
pub struct ChatMessage {
    pub role: Role,
    pub content: Vec<ContentItem>,
}

/// The mathematical value of a content part.
pub enum Part {
    InputText(Seq<char>),
    InputImage(Seq<char>),
    OutputText(Seq<char>),
    Other,
}

/// The mathematical value of a turn.
pub struct Turn {
    pub role: Role,
    pub content: Seq<Part>,
}

impl View for ContentItem {
    type V = Part;

    open spec fn view(&self) -> Part {
        match self {
            ContentItem::InputText { text } => Part::InputText(text@),
            ContentItem::InputImage { image_url } => Part::InputImage(image_url@),
            ContentItem::OutputText { text } => Part::OutputText(text@),
            ContentItem::Other => Part::Other,
        }
    }
}

/// The values of a sequence of content parts.
pub open spec fn parts_of(items: Seq<ContentItem>) -> Seq<Part> {
    Seq::new(items.len(), |i: int| items[i]@)
}

impl View for ChatMessage {
    type V = Turn;

    open spec fn view(&self) -> Turn {
        Turn { role: self.role, content: parts_of(self.content@) }
    }
}

/// The values of a sequence of turns.
pub open spec fn turns_of(messages: Seq<ChatMessage>) -> Seq<Turn> {
    Seq::new(messages.len(), |i: int| messages[i]@)
}

/// The name under which a role is sent to the model.
pub open spec fn role_name(role: Role) -> Seq<char> {
    match role {
        Role::User => "user"@,
        Role::Assistant => "assistant"@,
        Role::Developer => "developer"@,
    }
}

/// A user's text with the author's display name in front: `(name) text`.
pub open spec fn attributed(name: Seq<char>, text: Seq<char>) -> Seq<char> {
    "("@ + name + ") "@ + text
}

/// The invariant of a turn: its content is not empty, and an assistant turn
/// is exactly one piece of output text.
pub open spec fn turn_well_formed(t: Turn) -> bool {
    &&& t.content.len() > 0
    &&& t.role == Role::Assistant ==> t.content.len() == 1 && t.content[0] is OutputText
}

/// How one part reads in a log line.
pub open spec fn part_display(p: Part) -> Seq<char> {
    match p {
        Part::InputText(text) => text,
        Part::InputImage(url) => "[Image: "@ + url + "]"@,
        Part::OutputText(text) => text,
        Part::Other => "[Unknown content]"@,
    }
}

/// The displays of the first `n` parts, with one space between neighbours.
pub open spec fn parts_display(parts: Seq<Part>, n: nat) -> Seq<char>
    decreases n,
{
    if n == 0 {
        Seq::empty()
    } else if n == 1 {
        part_display(parts[0])
    } else {
        parts_display(parts, (n - 1) as nat) + " "@ + part_display(parts[n - 1])
    }
}

/// How a turn reads in a log line: `<role>`, a space, then its parts.
pub open spec fn turn_display(t: Turn) -> Seq<char> {
    "<"@ + role_name(t.role) + ">"@ + " "@ + parts_display(t.content, t.content.len())
}

impl Role {
    /// The name under which this role is sent to the model.
    pub fn as_str(&self) -> (r: &'static str)
        ensures
            r@ == role_name(*self),
    {
        match self {
            Role::User => "user",
            Role::Assistant => "assistant",
            Role::Developer => "developer",
        }
    }
}

impl Clone for ContentItem {
    fn clone(&self) -> (r: Self)
        ensures
            r@ == self@,
    {
        match self {
            ContentItem::InputText { text } => ContentItem::InputText { text: text.clone() },
            ContentItem::InputImage { image_url } => ContentItem::InputImage {
                image_url: image_url.clone(),
            },
            ContentItem::OutputText { text } => ContentItem::OutputText { text: text.clone() },
            ContentItem::Other => ContentItem::Other,
        }
    }
}

impl ContentItem {
    /// How this part reads in a log line.
    pub fn to_display_string(&self) -> (r: String)
        ensures
            r@ == part_display(self@),
    {
        match self {
            ContentItem::InputText { text } => text.clone(),
            ContentItem::InputImage { image_url } => {
                let mut r = "[Image: ".to_owned();
                r.append(image_url.as_str());
                r.append("]");
                r
            },
            ContentItem::OutputText { text } => text.clone(),
            ContentItem::Other => "[Unknown content]".to_owned(),
        }
    }
}

impl Clone for ChatMessage {
    fn clone(&self) -> (r: Self)
        ensures
            r@ == self@,
    {
        let mut content: Vec<ContentItem> = Vec::new();
        let mut i: usize = 0;
        while i < self.content.len()
            invariant
                0 <= i <= self.content.len(),
                content.len() == i,
                forall|j: int| 0 <= j < i ==> content@[j]@ == self.content@[j]@,
            decreases self.content.len() - i,
        {
            content.push(self.content[i].clone());
            i = i + 1;
        }
        assert(parts_of(content@) =~= parts_of(self.content@));
        ChatMessage { role: self.role, content }
    }
}

impl ChatMessage {
    /// Whether this turn meets the invariant of turns.
    pub open spec fn well_formed(&self) -> bool {
        turn_well_formed(self@)
    }

    /// A user turn that says `content`, attributed to `name`.
    pub fn user(content: String, name: String) -> (r: Self)
        ensures
            r@ == (Turn {
                role: Role::User,
                content: seq![Part::InputText(attributed(name@, content@))],
            }),
            r.well_formed(),
    {
        let mut text = "(".to_owned();
        text.append(name.as_str());
        text.append(") ");
        text.append(content.as_str());
        let mut parts: Vec<ContentItem> = Vec::new();
        parts.push(ContentItem::InputText { text });
        let r = ChatMessage { role: Role::User, content: parts };
        assert(r@.content =~= seq![Part::InputText(attributed(name@, content@))]);
        r
    }

    /// A user turn that says `text_content` and shows one image, attributed
    /// to `name`.
    pub fn user_with_image(text_content: String, name: String, image_url: String) -> (r: Self)
        ensures
            r@ == (Turn {
                role: Role::User,
                content: seq![
                    Part::InputText(attributed(name@, text_content@)),
                    Part::InputImage(image_url@),
                ],
            }),
            r.well_formed(),
    {
        let mut text = "(".to_owned();
        text.append(name.as_str());
        text.append(") ");
        text.append(text_content.as_str());
        let mut parts: Vec<ContentItem> = Vec::new();
        parts.push(ContentItem::InputText { text });
        parts.push(ContentItem::InputImage { image_url });
        let r = ChatMessage { role: Role::User, content: parts };
        assert(r@.content =~= seq![
            Part::InputText(attributed(name@, text_content@)),
            Part::InputImage(image_url@),
        ]);
        r
    }

    /// An assistant turn that says `content`.
    pub fn assistant(content: String) -> (r: Self)
        ensures
            r@ == (Turn { role: Role::Assistant, content: seq![Part::OutputText(content@)] }),
            r.well_formed(),
    {
        let mut parts: Vec<ContentItem> = Vec::new();
        parts.push(ContentItem::OutputText { text: content });
        let r = ChatMessage { role: Role::Assistant, content: parts };
        assert(r@.content =~= seq![Part::OutputText(content@)]);
        r
    }

    /// A developer turn that says `content`.
    pub fn developer(content: String) -> (r: Self)
        ensures
            r@ == (Turn { role: Role::Developer, content: seq![Part::InputText(content@)] }),
            r.well_formed(),
    {
        let mut parts: Vec<ContentItem> = Vec::new();
        parts.push(ContentItem::InputText { text: content });
        let r = ChatMessage { role: Role::Developer, content: parts };
        assert(r@.content =~= seq![Part::InputText(content@)]);
        r
    }

    /// How this turn reads in a log line.
    pub fn to_display_string(&self) -> (r: String)
        ensures
            r@ == turn_display(self@),
    {
        let mut r = "<".to_owned();
        r.append(self.role.as_str());
        r.append(">");
        r.append(" ");
        let ghost head = r@;
        let ghost parts = self@.content;
        let mut i: usize = 0;
        while i < self.content.len()
            invariant
                0 <= i <= self.content.len(),
                parts == parts_of(self.content@),
                r@ == head + parts_display(parts, i as nat),
            decreases self.content.len() - i,
        {
            let piece = self.content[i].to_display_string();
            if i > 0 {
                r.append(" ");
            }
            r.append(piece.as_str());
            i = i + 1;
            proof {
                let d = part_display(parts[i - 1]);
                if i == 1 {
                    assert(head + Seq::<char>::empty() + d =~= head + d);
                } else {
                    assert(head + parts_display(parts, (i - 1) as nat) + " "@ + d =~= head + (
                    parts_display(parts, (i - 1) as nat) + " "@ + d));
                }
            }
        }
        r
    }
}

} // verus!
