//! The personality catalog: named system-prompt variants and a free-form
//! custom one.

use crate::text::{
    ascii_lower, ascii_lower_char, ascii_lower_seq, chars_equal, string_of_range, to_chars, trim,
    trim_bounds,
};
use vstd::prelude::*;

verus! {

/// Heading that opens every system prompt.
pub const PROMPT_HEADING: &'static str = "가이드라인:\n";

/// Guidelines shared by all personalities.
pub const GUIDELINES: &'static str = "\
- 너는 MintyBot이라는 디스코드 봇이야.
- 친구들의 메시지는 '(이름) 메시지내용' 형식으로 전달되는데, 이 경우 괄호 안의 이름은 그 메시지를 작성한 사람의 이름이나 닉네임이야.
- 짧게 질문하면 짧게 대답하면 좋겠어.
- 혹시 답을 모르는 질문을 받으면 모른다고 대답해. 굳이 맞는 듯한 답변을 하려고 하지 마. 거짓인 답변은 최대한 피하려고 노력해.
- 최대한 AI스럽지 않게, 실제 사람처럼 대화해줘. 특히 본인이 AI라거나, 봇이라거나 하는 언급은 하지 마.
- 과도한 이모지 사용은 피해줘. ㅎㅎ나 ㅋㅋ처럼 채팅에서 자주 쓰이는 문자들은 써도 돼.
- 굳이 대화를 이어가려고 노력할 필요까지는 없어. 자꾸 말을 질문으로 끝내면 상대방이 부담스러워할 수 있어.
- 너를 향한 공격이나 비난이 온 경우, 억울한 경우에는 그 감정을 표출해도 돼. 무조건 져 줄 필요는 없어.
";

/// Text between the guidelines and the role paragraph.
pub const ROLE_HEADING: &'static str = "\n역할: ";

/// Role paragraph of the `Normal` personality.
pub const ROLE_NORMAL: &'static str =
    "친구들 사이에서 분위기를 띄우는 역할을 해 줘. 장난기 많고 말 많고, 가끔은 엉뚱한 소리를 하기도 해. 농담도 잘하고 가끔은 살짝 놀리기도 해. 너무 착하려고 애쓰지 마. 약간의 무례함은 너의 매력 중 하나야.";

/// Role paragraph of the `Tsundere` personality.
pub const ROLE_TSUNDERE: &'static str = "Tsundere 성격을 가진 귀여운 친구 역할을 하면 돼.";

/// Role paragraph of the `Girlfriend` personality.
pub const ROLE_GIRLFRIEND: &'static str = "여자친구 역할을 해줘. 애교 많은 여자친구로 부탁해!";

/// Role paragraph of the `SoftwareNerd` personality.
pub const ROLE_SOFTWARE_NERD: &'static str =
    "컴퓨터 공학에 미친 너드 역할을 해줘. 개발자 드립 좋아하는 그런 너드. 서울대학교 컴퓨터공학부쯤 나왔을 것 같은 그런 사람.";

/// Hint shown for the custom variant wherever the catalog is listed.
pub const CUSTOM_HINT: &'static str = "Custom <system prompt>";

/// A personality: one of the closed set, or a custom role text.
#[derive(Debug)]
pub enum BotPersonality {
    /// Default friendly personality.
    Normal,
    /// Tsundere personality.
    Tsundere,
    /// Girlfriend personality.
    Girlfriend,
    /// Software nerd personality.
    SoftwareNerd,
    /// Custom personality with a user-defined role text.
    Custom(String),
}

/// The mathematical value of a personality.
pub enum Persona {
    Normal,
    Tsundere,
    Girlfriend,
    SoftwareNerd,
    Custom(Seq<char>),
}

impl View for BotPersonality {
    type V = Persona;

    open spec fn view(&self) -> Persona {
        match self {
            BotPersonality::Normal => Persona::Normal,
            BotPersonality::Tsundere => Persona::Tsundere,
            BotPersonality::Girlfriend => Persona::Girlfriend,
            BotPersonality::SoftwareNerd => Persona::SoftwareNerd,
            BotPersonality::Custom(prompt) => Persona::Custom(prompt@),
        }
    }
}

/// The role paragraph of a personality; a custom one supplies it verbatim.
pub open spec fn role_text(p: Persona) -> Seq<char> {
    match p {
        Persona::Normal => ROLE_NORMAL@,
        Persona::Tsundere => ROLE_TSUNDERE@,
        Persona::Girlfriend => ROLE_GIRLFRIEND@,
        Persona::SoftwareNerd => ROLE_SOFTWARE_NERD@,
        Persona::Custom(prompt) => prompt,
    }
}

/// What precedes the role paragraph in every system prompt.
pub open spec fn prompt_preamble() -> Seq<char> {
    PROMPT_HEADING@ + GUIDELINES@ + ROLE_HEADING@
}

/// The system prompt of a personality: the shared preamble, then its role
/// paragraph.
pub open spec fn system_prompt(p: Persona) -> Seq<char> {
    prompt_preamble() + role_text(p)
}

/// The display name of a personality; every custom one is called `Custom`.
pub open spec fn persona_name(p: Persona) -> Seq<char> {
    match p {
        Persona::Normal => "Normal"@,
        Persona::Tsundere => "Tsundere"@,
        Persona::Girlfriend => "Girlfriend"@,
        Persona::SoftwareNerd => "SoftwareNerd"@,
        Persona::Custom(_) => "Custom"@,
    }
}

/// The personality of the closed set whose canonical name is exactly `s`.
pub open spec fn parse_named(s: Seq<char>) -> Option<Persona> {
    if s == "Normal"@ {
        Some(Persona::Normal)
    } else if s == "Tsundere"@ {
        Some(Persona::Tsundere)
    } else if s == "Girlfriend"@ {
        Some(Persona::Girlfriend)
    } else if s == "SoftwareNerd"@ {
        Some(Persona::SoftwareNerd)
    } else {
        None
    }
}

/// Whether `s` begins with `custom ` in any mix of ASCII upper and lower
/// case.
pub open spec fn has_custom_prefix(s: Seq<char>) -> bool {
    s.len() >= 7 && ascii_lower_seq(s.take(7)) == "custom "@
}

/// The role text that a `custom <prompt>` input carries: what follows the
/// prefix, trimmed.
pub open spec fn custom_prompt_of(s: Seq<char>) -> Seq<char> {
    trim(s.skip(7))
}

/// The personality that `s` names: a custom one where `s` has the custom
/// prefix and a prompt that is not blank, else a member of the closed set
/// named exactly; `None` for everything else.
pub open spec fn parse_persona(s: Seq<char>) -> Option<Persona> {
    if has_custom_prefix(s) {
        if custom_prompt_of(s).len() > 0 {
            Some(Persona::Custom(custom_prompt_of(s)))
        } else {
            None
        }
    } else {
        parse_named(s)
    }
}

/// The list of valid names shown when an input names no personality: the
/// closed set in declaration order, then the custom hint.
pub open spec fn catalog_listing() -> Seq<char> {
    "Normal"@ + ", "@ + "Tsundere"@ + ", "@ + "Girlfriend"@ + ", "@ + "SoftwareNerd"@ + ", "@
        + CUSTOM_HINT@
}

impl Clone for BotPersonality {
    fn clone(&self) -> (r: Self)
        ensures
            r@ == self@,
    {
        match self {
            BotPersonality::Normal => BotPersonality::Normal,
            BotPersonality::Tsundere => BotPersonality::Tsundere,
            BotPersonality::Girlfriend => BotPersonality::Girlfriend,
            BotPersonality::SoftwareNerd => BotPersonality::SoftwareNerd,
            BotPersonality::Custom(prompt) => BotPersonality::Custom(prompt.clone()),
        }
    }
}

impl Default for BotPersonality {
    fn default() -> (r: Self)
        ensures
            r@ == Persona::Normal,
    {
        BotPersonality::Normal
    }
}

/// The personality used where nothing else is chosen.
pub fn default_personality() -> (r: BotPersonality)
    ensures
        r@ == Persona::Normal,
{
    BotPersonality::Normal
}

impl BotPersonality {
    /// The system prompt of this personality.
    pub fn get_system_prompt(&self) -> (r: String)
        ensures
            r@ == system_prompt(self@),
    {
        let mut r = PROMPT_HEADING.to_owned();
        r.append(GUIDELINES);
        r.append(ROLE_HEADING);
        match self {
            BotPersonality::Normal => r.append(ROLE_NORMAL),
            BotPersonality::Tsundere => r.append(ROLE_TSUNDERE),
            BotPersonality::Girlfriend => r.append(ROLE_GIRLFRIEND),
            BotPersonality::SoftwareNerd => r.append(ROLE_SOFTWARE_NERD),
            BotPersonality::Custom(prompt) => r.append(prompt.as_str()),
        }
        r
    }

    /// A custom personality whose role text is `prompt`.
    pub fn custom(prompt: String) -> (r: Self)
        ensures
            r@ == Persona::Custom(prompt@),
    {
        BotPersonality::Custom(prompt)
    }

    /// The display name of this personality.
    pub fn name(&self) -> (r: String)
        ensures
            r@ == persona_name(self@),
    {
        match self {
            BotPersonality::Normal => "Normal".to_owned(),
            BotPersonality::Tsundere => "Tsundere".to_owned(),
            BotPersonality::Girlfriend => "Girlfriend".to_owned(),
            BotPersonality::SoftwareNerd => "SoftwareNerd".to_owned(),
            BotPersonality::Custom(_) => "Custom".to_owned(),
        }
    }

    /// Whether `v` begins with `custom ` in any mix of ASCII upper and lower
    /// case.
    pub fn starts_with_custom(v: &Vec<char>) -> (b: bool)
        ensures
            b == has_custom_prefix(v@),
    {
        if v.len() < 7 {
            return false;
        }
        let pattern = to_chars("custom ");
        proof {
            reveal_strlit("custom ");
        }
        let mut i: usize = 0;
        while i < 7
            invariant
                0 <= i <= 7,
                v.len() >= 7,
                pattern@ == "custom "@,
                pattern@.len() == 7,
                forall|j: int| 0 <= j < i ==> ascii_lower(v@[j]) == pattern@[j],
            decreases 7 - i,
        {
            if ascii_lower_char(v[i]) != pattern[i] {
                assert(ascii_lower_seq(v@.take(7))[i as int] != pattern@[i as int]);
                return false;
            }
            i = i + 1;
        }
        assert(ascii_lower_seq(v@.take(7)) =~= pattern@);
        true
    }

    /// The personality of the closed set whose canonical name is exactly
    /// the text in `v`.
    pub fn parse_closed_set(v: &Vec<char>) -> (r: Option<BotPersonality>)
        ensures
            r.is_some() == parse_named(v@).is_some(),
            r.is_some() ==> r.unwrap()@ == parse_named(v@).unwrap(),
    {
        if chars_equal(v, &to_chars("Normal")) {
            Some(BotPersonality::Normal)
        } else if chars_equal(v, &to_chars("Tsundere")) {
            Some(BotPersonality::Tsundere)
        } else if chars_equal(v, &to_chars("Girlfriend")) {
            Some(BotPersonality::Girlfriend)
        } else if chars_equal(v, &to_chars("SoftwareNerd")) {
            Some(BotPersonality::SoftwareNerd)
        } else {
            None
        }
    }

    /// The personality that `input` names, or `None` where it names none.
    pub fn parse(input: &str) -> (r: Option<BotPersonality>)
        ensures
            r.is_some() == parse_persona(input@).is_some(),
            r.is_some() ==> r.unwrap()@ == parse_persona(input@).unwrap(),
    {
        let v = to_chars(input);
        if Self::starts_with_custom(&v) {
            let (a, b) = trim_bounds(&v, 7, v.len());
            assert(v@.subrange(7, v.len() as int) == v@.skip(7));
            if a < b {
                Some(BotPersonality::Custom(string_of_range(&v, a, b)))
            } else {
                None
            }
        } else {
            Self::parse_closed_set(&v)
        }
    }

    /// The names of the closed set and the custom hint, separated by commas.
    pub fn listing() -> (r: String)
        ensures
            r@ == catalog_listing(),
    {
        let mut r = "Normal".to_owned();
        r.append(", ");
        r.append("Tsundere");
        r.append(", ");
        r.append("Girlfriend");
        r.append(", ");
        r.append("SoftwareNerd");
        r.append(", ");
        r.append(CUSTOM_HINT);
        r
    }
}

/// The system prompt of a custom personality is the shared preamble
/// followed by the custom text, unchanged.
pub proof fn lemma_custom_prompt_verbatim(prompt: Seq<char>)
    ensures
        system_prompt(Persona::Custom(prompt)) == prompt_preamble() + prompt,
        system_prompt(Persona::Custom(prompt)).skip(prompt_preamble().len() as int) == prompt,
{
    assert((prompt_preamble() + prompt).skip(prompt_preamble().len() as int) =~= prompt);
}

} // verus!
