//! Minecraft [chat](https://wiki.vg/Chat) components.
use vstd::prelude::*;
use crate::bigendian::be_bytes;
use crate::util::packet::{frame, string_bytes, Packet, PacketBuilder};

verus! {

/// Whether a style flag is to be left out when a chat component is
/// written as JSON: it is, when it is not set.
pub fn skip(attr: &bool) -> (r: bool)
    ensures
        r == !*attr,
{
    return !*attr;
}

/// Minecraft [chat](https://wiki.vg/Chat) object
pub struct Chat {
    pub text: String,
    pub color: Option<String>,
    pub bold: bool,
    pub italic: bool,
    pub underlined: bool,
    pub strikethrough: bool,
    pub obfuscated: bool,
    pub extra: Vec<Chat>,
}

/// What a [`Chat`] holds.
pub struct ChatModel {
    pub text: Seq<char>,
    pub color: Option<Seq<char>>,
    pub bold: bool,
    pub italic: bool,
    pub underlined: bool,
    pub strikethrough: bool,
    pub obfuscated: bool,
    pub extra: Seq<ChatModel>,
}

/// The characters of an optional string.
pub open spec fn opt_chars(s: Option<String>) -> Option<Seq<char>> {
    match s {
        Some(s) => Some(s@),
        None => None,
    }
}

impl Chat {
    pub open spec fn model(&self) -> ChatModel
        decreases self,
    {
        ChatModel {
            text: self.text@,
            color: opt_chars(self.color),
            bold: self.bold,
            italic: self.italic,
            underlined: self.underlined,
            strikethrough: self.strikethrough,
            obfuscated: self.obfuscated,
            extra: Seq::new(
                self.extra@.len(),
                |i: int|
                    if 0 <= i < self.extra@.len() {
                        self.extra@[i].model()
                    } else {
                        arbitrary()
                    },
            ),
        }
    }
}

/// Style bits of a chat component under construction.
pub const BOLD: u8 = 0x01;

pub const ITALIC: u8 = 0x02;

pub const UNDERLINED: u8 = 0x04;

pub const STRIKETHROUGH: u8 = 0x08;

pub const OBFUSCATED: u8 = 0x10;

/// Utility struct for making Minecraft [chat](https://wiki.vg/Chat) objects
///
/// # Example
///
/// The following snippet will create a Chat struct containing "Hello, World!"
/// "Hello, " is blue
/// "World!" is blue, bold and italic
///
/// ```
/// ChatBuilder::new("Hello, ")
///     .color("blue")
///     .append(
///         ChatBuilder::new("World!")
///             .bold()
///             .italic()
///     )
///     .finish()
/// ```
pub struct ChatBuilder {
    text: String,
    color: Option<String>,
    style: u8,
    extra: Vec<Self>,
}

/// What a [`ChatBuilder`] holds: text, color, the style bits set on it, and
/// the components appended to it, in order.
pub struct ChatBuilderModel {
    pub text: Seq<char>,
    pub color: Option<Seq<char>>,
    pub style: u8,
    pub extra: Seq<ChatBuilderModel>,
}

impl ChatBuilder {
    pub closed spec fn model(&self) -> ChatBuilderModel
        decreases self,
    {
        ChatBuilderModel {
            text: self.text@,
            color: opt_chars(self.color),
            style: self.style,
            extra: Seq::new(
                self.extra@.len(),
                |i: int|
                    if 0 <= i < self.extra@.len() {
                        self.extra@[i].model()
                    } else {
                        arbitrary()
                    },
            ),
        }
    }
}

/// `m` with the bits of `flag` added to its style.
pub open spec fn with_style(m: ChatBuilderModel, flag: u8) -> ChatBuilderModel {
    ChatBuilderModel { style: m.style | flag, ..m }
}

/// `m` with `child` appended after its other components.
pub open spec fn with_extra(m: ChatBuilderModel, child: ChatBuilderModel) -> ChatBuilderModel {
    ChatBuilderModel { extra: m.extra.push(child), ..m }
}

/// A component with `text` only.
pub open spec fn plain(text: Seq<char>) -> ChatBuilderModel {
    ChatBuilderModel { text, color: None, style: 0, extra: Seq::empty() }
}

/// Whether all the bits of `flag` are set in `style`.
pub open spec fn has_style(style: u8, flag: u8) -> bool {
    style & flag == flag
}

/// The chat object that a builder finishes into: its own text and color,
/// each style flag set exactly when its bit was set on the builder, and
/// its appended components finished in the same way, in order.
pub open spec fn render(b: ChatBuilderModel) -> ChatModel
    decreases b,
{
    ChatModel {
        text: b.text,
        color: b.color,
        bold: has_style(b.style, BOLD),
        italic: has_style(b.style, ITALIC),
        underlined: has_style(b.style, UNDERLINED),
        strikethrough: has_style(b.style, STRIKETHROUGH),
        obfuscated: has_style(b.style, OBFUSCATED),
        extra: Seq::new(
            b.extra.len(),
            |i: int|
                if 0 <= i < b.extra.len() {
                    render(b.extra[i])
                } else {
                    arbitrary()
                },
        ),
    }
}

fn clone_color(color: &Option<String>) -> (r: Option<String>)
    ensures
        opt_chars(r) == opt_chars(*color),
{
    match color {
        Some(c) => Some(c.clone()),
        None => None,
    }
}

impl ChatBuilder {
    /// New chat builder, only containing given `text`
    pub fn new(text: &str) -> (b: Self)
        ensures
            b.model() == plain(text@),
    {
        let b = ChatBuilder {
            text: String::from_str(text),
            color: None,
            style: 0,
            extra: Vec::new(),
        };
        assert(b.model().extra =~= Seq::empty());
        b
    }

    /// Update component color
    ///
    /// `color` must be one of [Minecraft color codes](https://wiki.vg/Chat#Colors)
    ///
    /// # Example
    ///
    /// ```
    /// ChatBuilder::new("I'm blue").color("blue");
    /// ```
    pub fn color(self, color: &str) -> (b: Self)
        ensures
            b.model() == (ChatBuilderModel { color: Some(color@), ..self.model() }),
    {
        let mut b = self;
        b.color = Some(String::from_str(color));
        assert(b.model().extra == self.model().extra);
        b
    }

    fn style(self, style: u8) -> (b: Self)
        ensures
            b.model() == with_style(self.model(), style),
    {
        let mut b = self;
        b.style = b.style | style;
        assert(b.model().extra == self.model().extra);
        b
    }

    fn is_style(&self, style: u8) -> (r: bool)
        ensures
            r == has_style(self.model().style, style),
    {
        (self.style & style) == style
    }

    pub fn bold(self) -> (b: Self)
        ensures
            b.model() == with_style(self.model(), BOLD),
    {
        self.style(0x01)
    }

    pub fn italic(self) -> (b: Self)
        ensures
            b.model() == with_style(self.model(), ITALIC),
    {
        self.style(0x02)
    }

    pub fn underlined(self) -> (b: Self)
        ensures
            b.model() == with_style(self.model(), UNDERLINED),
    {
        self.style(0x04)
    }

    pub fn strikethrough(self) -> (b: Self)
        ensures
            b.model() == with_style(self.model(), STRIKETHROUGH),
    {
        self.style(0x08)
    }

    pub fn obfuscated(self) -> (b: Self)
        ensures
            b.model() == with_style(self.model(), OBFUSCATED),
    {
        self.style(0x10)
    }

    /// Adds an extra component to self
    /// The given component will inherit properties from self
    ///
    /// # Examples
    ///
    /// ```
    /// ChatBuilder::new("parent")
    ///     .bold()
    ///     .append(
    ///         ChatBuilder::new("child").italic()
    ///     )
    /// ```
    ///
    /// Result:
    ///
    /// - parent: bold
    /// - child: bold, italic
    ///
    /// ```
    /// ChatBuilder::new("")
    ///     .append(
    ///         ChatBuilder::new("first child").bold()
    ///     )
    ///     .append(
    ///         ChatBuilder::new("second child").italic()
    ///     )
    /// ```
    ///
    /// Result:
    ///
    /// - first child: bold
    /// - second child: italic
    pub fn append(self, chat: Self) -> (b: Self)
        ensures
            b.model() == with_extra(self.model(), chat.model()),
    {
        let mut b = self;
        b.extra.push(chat);
        assert(b.model().extra == self.model().extra.push(chat.model()));
        b
    }

    /// Adds a single space as an extra to self
    pub fn space(self) -> (b: Self)
        ensures
            b.model() == with_extra(self.model(), plain(" "@)),
    {
        let mut b = self;
        let sp = Self::new(" ");
        b.extra.push(sp);
        assert(b.model().extra == self.model().extra.push(sp.model()));
        b
    }

    /// Constructs a new Chat object, ready to be serialized using serde then sent to a client
    pub fn finish(&self) -> (c: Chat)
        ensures
            c.model() == render(self.model()),
        decreases self,
    {
        let mut extra: Vec<Chat> = Vec::new();
        let mut i: usize = 0;
        while i < self.extra.len()
            invariant
                i <= self.extra@.len(),
                extra@.len() == i,
                forall|j: int| 0 <= j < i ==> (#[trigger] extra@[j]).model() == render(self.extra@[j].model()),
            decreases self.extra@.len() - i,
        {
            let ex = self.extra[i].finish();
            extra.push(ex);
            i += 1;
        }
        let message = Chat {
            text: self.text.clone(),
            color: clone_color(&self.color),
            bold: self.is_style(0x01),
            italic: self.is_style(0x02),
            underlined: self.is_style(0x04),
            strikethrough: self.is_style(0x08),
            obfuscated: self.is_style(0x10),
            extra,
        };
        assert(message.model().extra == render(self.model()).extra);
        message
    }
}

/// The chat message packet (id 2) for connection `process_id` that shows
/// the chat component whose JSON text is `chat_json` in the chat box.
pub fn chat_packet(process_id: String, chat_json: String) -> (p: Packet)
    ensures
        p.pid@ == process_id@,
        p.state is None,
        p.data@ == frame(0x02, string_bytes(chat_json@) + be_bytes(0, 1)),
{
    PacketBuilder::new(0x02, process_id).write_string(chat_json).write_sized(0, 1).finish()
}

/// The five style flags.
pub open spec fn is_flag(f: u8) -> bool {
    f == BOLD || f == ITALIC || f == UNDERLINED || f == STRIKETHROUGH || f == OBFUSCATED
}

/// A finished component with no style flag set and no components.
pub open spec fn leaf(text: Seq<char>, color: Option<Seq<char>>) -> ChatModel {
    ChatModel {
        text,
        color,
        bold: false,
        italic: false,
        underlined: false,
        strikethrough: false,
        obfuscated: false,
        extra: Seq::empty(),
    }
}

/// A component without appended components finishes to its text, color
/// and the flags of its style.
pub proof fn lemma_render_leaf(m: ChatBuilderModel)
    requires
        m.extra.len() == 0,
    ensures
        render(m) == (ChatModel {
            text: m.text,
            color: m.color,
            bold: has_style(m.style, BOLD),
            italic: has_style(m.style, ITALIC),
            underlined: has_style(m.style, UNDERLINED),
            strikethrough: has_style(m.style, STRIKETHROUGH),
            obfuscated: has_style(m.style, OBFUSCATED),
            extra: Seq::empty(),
        }),
{
    assert(render(m).extra =~= Seq::empty());
}

/// The flags of the styles that are nothing and bold alone.
pub proof fn lemma_style_constants()
    ensures
        !has_style(0, BOLD),
        !has_style(0, ITALIC),
        !has_style(0, UNDERLINED),
        !has_style(0, STRIKETHROUGH),
        !has_style(0, OBFUSCATED),
        has_style(0 | BOLD, BOLD),
        !has_style(0 | BOLD, ITALIC),
        !has_style(0 | BOLD, UNDERLINED),
        !has_style(0 | BOLD, STRIKETHROUGH),
        !has_style(0 | BOLD, OBFUSCATED),
{
    assert(0u8 & 1u8 != 1u8 && 0u8 & 2u8 != 2u8 && 0u8 & 4u8 != 4u8 && 0u8 & 8u8 != 8u8 && 0u8
        & 16u8 != 16u8) by (bit_vector);
    assert((0u8 | 1u8) & 1u8 == 1u8 && (0u8 | 1u8) & 2u8 != 2u8 && (0u8 | 1u8) & 4u8 != 4u8 && (
    0u8 | 1u8) & 8u8 != 8u8 && (0u8 | 1u8) & 16u8 != 16u8) by (bit_vector);
}

/// Law: adding a style that is already there changes nothing.
pub proof fn lemma_style_idempotent(m: ChatBuilderModel, f: u8)
    ensures
        with_style(with_style(m, f), f) == with_style(m, f),
{
    let s = m.style;
    assert((s | f) | f == s | f) by (bit_vector);
}

/// Law: styles added one after the other give the same component in
/// either order.
pub proof fn lemma_style_commutes(m: ChatBuilderModel, f: u8, g: u8)
    ensures
        with_style(with_style(m, f), g) == with_style(with_style(m, g), f),
{
    let s = m.style;
    assert((s | f) | g == (s | g) | f) by (bit_vector);
}

/// Adding one flag sets that flag and leaves the others as they were.
pub proof fn lemma_flag_bits(s: u8, f: u8, g: u8)
    requires
        is_flag(f),
        is_flag(g),
    ensures
        has_style(s | f, g) <==> has_style(s, g) || f == g,
{
    assert((f == 1 || f == 2 || f == 4 || f == 8 || f == 16) && (g == 1 || g == 2 || g == 4 || g
        == 8 || g == 16) ==> (((s | f) & g == g) <==> (s & g == g || f == g))) by (bit_vector);
}

/// A new component has no flag set.
pub proof fn lemma_no_flags(g: u8)
    requires
        is_flag(g),
    ensures
        !has_style(0, g),
{
    assert((g == 1 || g == 2 || g == 4 || g == 8 || g == 16) ==> (0u8 & g) != g) by (bit_vector);
}

/// Law: a component finished after a style flag was added has that flag
/// set, and every other part as it would have been without it.
pub proof fn lemma_finish_with_style(m: ChatBuilderModel, f: u8)
    requires
        is_flag(f),
    ensures
        render(with_style(m, f)) == (ChatModel {
            bold: render(m).bold || f == BOLD,
            italic: render(m).italic || f == ITALIC,
            underlined: render(m).underlined || f == UNDERLINED,
            strikethrough: render(m).strikethrough || f == STRIKETHROUGH,
            obfuscated: render(m).obfuscated || f == OBFUSCATED,
            ..render(m)
        }),
{
    lemma_flag_bits(m.style, f, BOLD);
    lemma_flag_bits(m.style, f, ITALIC);
    lemma_flag_bits(m.style, f, UNDERLINED);
    lemma_flag_bits(m.style, f, STRIKETHROUGH);
    lemma_flag_bits(m.style, f, OBFUSCATED);
    assert(render(with_style(m, f)).extra == render(m).extra);
}

/// Law: a component appended to another comes out finished after the
/// components appended before it, and the rest of the parent is unchanged.
pub proof fn lemma_finish_with_extra(m: ChatBuilderModel, child: ChatBuilderModel)
    ensures
        render(with_extra(m, child)) == (ChatModel {
            extra: render(m).extra.push(render(child)),
            ..render(m)
        }),
{
    assert(render(with_extra(m, child)).extra == render(m).extra.push(render(child)));
}

/// Law: a new component finishes to its text alone: no color, no style,
/// no components.
pub proof fn lemma_finish_plain(text: Seq<char>)
    ensures
        render(plain(text)) == (ChatModel {
            text,
            color: None,
            bold: false,
            italic: false,
            underlined: false,
            strikethrough: false,
            obfuscated: false,
            extra: Seq::empty(),
        }),
{
    lemma_no_flags(BOLD);
    lemma_no_flags(ITALIC);
    lemma_no_flags(UNDERLINED);
    lemma_no_flags(STRIKETHROUGH);
    lemma_no_flags(OBFUSCATED);
    assert(render(plain(text)).extra =~= Seq::empty());
}

/// A call on a chat builder, as the builder's own methods make it.
pub enum BuilderCall {
    Color(Seq<char>),
    Bold,
    Italic,
    Underlined,
    Strikethrough,
    Obfuscated,
    Append(ChatBuilderModel),
    Space,
}

/// What a builder holds after one call, as the method's contract says.
pub open spec fn apply_call(m: ChatBuilderModel, call: BuilderCall) -> ChatBuilderModel {
    match call {
        BuilderCall::Color(color) => ChatBuilderModel { color: Some(color), ..m },
        BuilderCall::Bold => with_style(m, BOLD),
        BuilderCall::Italic => with_style(m, ITALIC),
        BuilderCall::Underlined => with_style(m, UNDERLINED),
        BuilderCall::Strikethrough => with_style(m, STRIKETHROUGH),
        BuilderCall::Obfuscated => with_style(m, OBFUSCATED),
        BuilderCall::Append(child) => with_extra(m, child),
        BuilderCall::Space => with_extra(m, plain(" "@)),
    }
}

/// What a builder holds after the calls `calls`, in order.
pub open spec fn apply_calls(m: ChatBuilderModel, calls: Seq<BuilderCall>) -> ChatBuilderModel
    decreases calls.len(),
{
    if calls.len() == 0 {
        m
    } else {
        apply_call(apply_calls(m, calls.drop_last()), calls.last())
    }
}

/// The color of the last color call, if there is one.
pub open spec fn last_color(calls: Seq<BuilderCall>) -> Option<Seq<char>>
    decreases calls.len(),
{
    if calls.len() == 0 {
        None
    } else {
        match calls.last() {
            BuilderCall::Color(color) => Some(color),
            _ => last_color(calls.drop_last()),
        }
    }
}

/// The components that the calls append, in order: a space call appends
/// a component that holds one space.
pub open spec fn appended(calls: Seq<BuilderCall>) -> Seq<ChatBuilderModel>
    decreases calls.len(),
{
    if calls.len() == 0 {
        Seq::empty()
    } else {
        match calls.last() {
            BuilderCall::Append(child) => appended(calls.drop_last()).push(child),
            BuilderCall::Space => appended(calls.drop_last()).push(plain(" "@)),
            _ => appended(calls.drop_last()),
        }
    }
}

/// The style call that sets `flag`.
pub open spec fn style_call(flag: u8) -> BuilderCall {
    if flag == BOLD {
        BuilderCall::Bold
    } else if flag == ITALIC {
        BuilderCall::Italic
    } else if flag == UNDERLINED {
        BuilderCall::Underlined
    } else if flag == STRIKETHROUGH {
        BuilderCall::Strikethrough
    } else {
        BuilderCall::Obfuscated
    }
}

/// A builder made by `new(text)` and then the calls `calls` holds `text`,
/// the color of the last color call, each style flag exactly when its call
/// was made, and the appended components in order.
proof fn lemma_apply_calls(text: Seq<char>, calls: Seq<BuilderCall>, flag: u8)
    requires
        is_flag(flag),
    ensures
        apply_calls(plain(text), calls).text == text,
        apply_calls(plain(text), calls).color == last_color(calls),
        has_style(apply_calls(plain(text), calls).style, flag) <==> calls.contains(
            style_call(flag),
        ),
        apply_calls(plain(text), calls).extra == appended(calls),
    decreases calls.len(),
{
    if calls.len() == 0 {
        lemma_no_flags(flag);
    } else {
        let rest = calls.drop_last();
        let call = calls.last();
        lemma_apply_calls(text, rest, flag);
        let m = apply_calls(plain(text), rest);
        assert(calls == rest.push(call));
        assert(calls.contains(style_call(flag)) <==> rest.contains(style_call(flag)) || call
            == style_call(flag)) by {
            if rest.contains(style_call(flag)) {
                let i = choose|i: int| 0 <= i < rest.len() && rest[i] == style_call(flag);
                assert(calls[i] == style_call(flag));
            }
            if call == style_call(flag) {
                assert(calls[calls.len() - 1] == style_call(flag));
            }
            if calls.contains(style_call(flag)) && call != style_call(flag) {
                let i = choose|i: int| 0 <= i < calls.len() && calls[i] == style_call(flag);
                assert(rest[i] == style_call(flag));
            }
        }
        match call {
            BuilderCall::Bold => lemma_flag_bits(m.style, BOLD, flag),
            BuilderCall::Italic => lemma_flag_bits(m.style, ITALIC, flag),
            BuilderCall::Underlined => lemma_flag_bits(m.style, UNDERLINED, flag),
            BuilderCall::Strikethrough => lemma_flag_bits(m.style, STRIKETHROUGH, flag),
            BuilderCall::Obfuscated => lemma_flag_bits(m.style, OBFUSCATED, flag),
            _ => {},
        }
    }
}

/// Law: a chat component built by `new(text)` and then any calls `calls`
/// of `color`, the five styles, `append` and `space` finishes to: the text
/// `text`; the color of the last color call, none if there was none; each
/// style flag set exactly when its call was made at least once; and the
/// appended components finished, in the order they were appended, where
/// `space` appends a component that holds one space.
pub proof fn lemma_finish_after_calls(text: Seq<char>, calls: Seq<BuilderCall>)
    ensures
        render(apply_calls(plain(text), calls)) == (ChatModel {
            text,
            color: last_color(calls),
            bold: calls.contains(BuilderCall::Bold),
            italic: calls.contains(BuilderCall::Italic),
            underlined: calls.contains(BuilderCall::Underlined),
            strikethrough: calls.contains(BuilderCall::Strikethrough),
            obfuscated: calls.contains(BuilderCall::Obfuscated),
            extra: appended(calls).map_values(|child: ChatBuilderModel| render(child)),
        }),
{
    lemma_apply_calls(text, calls, BOLD);
    lemma_apply_calls(text, calls, ITALIC);
    lemma_apply_calls(text, calls, UNDERLINED);
    lemma_apply_calls(text, calls, STRIKETHROUGH);
    lemma_apply_calls(text, calls, OBFUSCATED);
    let m = apply_calls(plain(text), calls);
    assert(render(m).extra =~= appended(calls).map_values(
        |child: ChatBuilderModel| render(child),
    ));
}

} // verus!
