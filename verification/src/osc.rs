//! The message model: an address with typed arguments, and ordered bundles
//! of messages that are delivered as one unit.

use crate::error::KituError;
use crate::text::{bool_text, int_text, join, push_bool, push_int};
use vstd::prelude::*;
use vstd::string::StringExecFns;

verus! {

/// One argument of a message.
///
/// A floating-point argument is held by the bit pattern of its IEEE 754
/// single-precision value, so two such arguments are equal exactly when their
/// bits are.
#[derive(Debug, Clone, PartialEq)]
pub enum OscArg {
    Int(i32),
    Float(u32),
    Str(String),
    Bool(bool),
}

/// Mathematical value of an [`OscArg`].
pub enum ArgView {
    Int(i32),
    Float(u32),
    Str(Seq<char>),
    Bool(bool),
}

impl View for OscArg {
    type V = ArgView;

    open spec fn view(&self) -> ArgView {
        match self {
            OscArg::Int(v) => ArgView::Int(*v),
            OscArg::Float(bits) => ArgView::Float(*bits),
            OscArg::Str(s) => ArgView::Str(s@),
            OscArg::Bool(b) => ArgView::Bool(*b),
        }
    }
}

/// The values of a list of arguments.
pub open spec fn arg_views(args: Seq<OscArg>) -> Seq<ArgView> {
    args.map_values(|arg: OscArg| arg@)
}

/// A message: an address and its arguments in order.
#[derive(Debug, Clone, PartialEq)]
pub struct OscMessage {
    /// The address, a path such as `/player/move`.
    pub address: String,
    /// The arguments, in the order in which they were appended.
    pub args: Vec<OscArg>,
}

/// Mathematical value of an [`OscMessage`].
pub struct MessageView {
    pub address: Seq<char>,
    pub args: Seq<ArgView>,
}

impl View for OscMessage {
    type V = MessageView;

    open spec fn view(&self) -> MessageView {
        MessageView { address: self.address@, args: arg_views(self.args@) }
    }
}

/// Whether `text` is what `float_text` may return for the bits `bits`.
pub open spec fn float_rendered<F: Fn(u32) -> String>(float_text: F, bits: u32, text: Seq<char>) -> bool {
    exists|s: String| call_ensures(float_text, (bits,), s) && s@ == text
}

/// Whether `text` renders `arg`: an integer in decimal, a boolean as a word,
/// a string between double quotes, a floating-point number as `float_text`
/// writes it.
pub open spec fn arg_rendered<F: Fn(u32) -> String>(float_text: F, arg: ArgView, text: Seq<char>) -> bool {
    match arg {
        ArgView::Int(v) => text == int_text(v as int),
        ArgView::Float(bits) => float_rendered(float_text, bits, text),
        ArgView::Str(s) => text == seq!['"'] + s + seq!['"'],
        ArgView::Bool(b) => text == bool_text(b),
    }
}

/// Whether `texts` renders `args`, one text for each argument.
pub open spec fn args_rendered<F: Fn(u32) -> String>(
    float_text: F,
    args: Seq<ArgView>,
    texts: Seq<Seq<char>>,
) -> bool {
    &&& texts.len() == args.len()
    &&& forall|i: int| 0 <= i < args.len() ==> arg_rendered(float_text, #[trigger] args[i], texts[i])
}

/// The rendering of a message from its address and the texts of its
/// arguments: `address(text, text, ...)`.
pub open spec fn debug_text(address: Seq<char>, texts: Seq<Seq<char>>) -> Seq<char> {
    address + seq!['('] + join(texts, ", "@) + seq![')']
}

impl OscMessage {
    /// A message to `address` without arguments.
    pub fn new(address: &str) -> (message: OscMessage)
        ensures
            message@ == (MessageView { address: address@, args: Seq::empty() }),
    {
        let message = OscMessage { address: address.to_owned(), args: Vec::new() };
        assert(message@.args =~= Seq::<ArgView>::empty());
        message
    }

    /// Appends `arg` behind the arguments that the message has.
    pub fn push_arg(&mut self, arg: OscArg)
        ensures
            final(self)@ == (MessageView {
                address: old(self)@.address,
                args: old(self)@.args.push(arg@),
            }),
    {
        self.args.push(arg);
        assert(self@.args =~= old(self)@.args.push(arg@));
    }

    /// Renders the message for diagnostics, as `address(arg, arg, ...)`.
    /// `float_text` writes a floating-point argument, given its bits; it is
    /// called once for each such argument, in order.
    pub fn to_debug_string<F: Fn(u32) -> String>(&self, float_text: F) -> (outcome: Result<
        String,
        KituError,
    >)
        requires
            forall|i: int|
                0 <= i < self.args@.len() ==> (#[trigger] self.args@[i] matches OscArg::Float(bits)
                    ==> call_requires(float_text, (bits,))),
        ensures
            outcome matches Ok(text) && exists|texts: Seq<Seq<char>>|
                args_rendered(float_text, self@.args, texts) && text@ == debug_text(
                    self@.address,
                    texts,
                ),
    {
        let mut buf = self.address.clone();
        buf.push('(');
        let ghost mut texts: Seq<Seq<char>> = Seq::empty();
        let mut i: usize = 0;
        while i < self.args.len()
            invariant
                0 <= i <= self.args@.len(),
                forall|k: int|
                    0 <= k < self.args@.len() ==> (#[trigger] self.args@[k] matches OscArg::Float(
                        bits,
                    ) ==> call_requires(float_text, (bits,))),
                args_rendered(float_text, self@.args.take(i as int), texts),
                buf@ == self@.address + seq!['('] + join(texts, ", "@),
            decreases self.args@.len() - i,
        {
            let ghost before = buf@;
            if i > 0 {
                buf.append(", ");
            }
            let ghost start = buf@;
            let ghost arg = self.args@[i as int]@;
            let ghost mut text: Seq<char> = Seq::empty();
            match &self.args[i] {
                OscArg::Int(v) => {
                    push_int(&mut buf, *v);
                    proof {
                        text = int_text(*v as int);
                    }
                },
                OscArg::Float(bits) => {
                    let written = float_text(*bits);
                    buf.append(written.as_str());
                    proof {
                        text = written@;
                        assert(float_rendered(float_text, *bits, text));
                    }
                },
                OscArg::Str(s) => {
                    buf.push('"');
                    buf.append(s.as_str());
                    buf.push('"');
                    proof {
                        text = seq!['"'] + s@ + seq!['"'];
                        assert(buf@ =~= start + text);
                    }
                },
                OscArg::Bool(b) => {
                    push_bool(&mut buf, *b);
                    proof {
                        text = bool_text(*b);
                    }
                },
            }
            let ghost longer = texts.push(text);
            proof {
                assert(buf@ == start + text);
                assert(arg_rendered(float_text, arg, text));
                assert(longer.drop_last() =~= texts);
                assert(longer.last() == text);
                assert(buf@ =~= self@.address + seq!['('] + join(longer, ", "@));
                assert(self@.args.take(i + 1)[i as int] == arg);
                assert forall|k: int| 0 <= k < i + 1 implies arg_rendered(
                    float_text,
                    #[trigger] self@.args.take(i + 1)[k],
                    longer[k],
                ) by {
                    if k < i {
                        assert(self@.args.take(i + 1)[k] == self@.args.take(i as int)[k]);
                        assert(longer[k] == texts[k]);
                    }
                }
                texts = longer;
            }
            i += 1;
        }
        buf.push(')');
        proof {
            assert(self@.args.take(i as int) =~= self@.args);
            assert(buf@ =~= debug_text(self@.address, texts));
        }
        Ok(buf)
    }
}

/// Messages that are delivered as one unit, in order.
#[derive(Debug, Clone, PartialEq)]
pub struct OscBundle {
    /// The messages, in the order in which they were pushed.
    pub messages: Vec<OscMessage>,
}

impl View for OscBundle {
    type V = Seq<MessageView>;

    open spec fn view(&self) -> Seq<MessageView> {
        self.messages@.map_values(|message: OscMessage| message@)
    }
}

impl Default for OscBundle {
    /// The bundle without messages.
    fn default() -> (bundle: OscBundle)
        ensures
            bundle@ == Seq::<MessageView>::empty(),
    {
        OscBundle::new()
    }
}

impl OscBundle {
    /// The bundle without messages.
    pub fn new() -> (bundle: OscBundle)
        ensures
            bundle@ == Seq::<MessageView>::empty(),
    {
        let bundle = OscBundle { messages: Vec::new() };
        assert(bundle@ =~= Seq::<MessageView>::empty());
        bundle
    }

    /// Appends `message` behind the messages that the bundle has.
    pub fn push(&mut self, message: OscMessage)
        ensures
            final(self)@ == old(self)@.push(message@),
    {
        self.messages.push(message);
        assert(self@ =~= old(self)@.push(message@));
    }

    /// The number of messages.
    pub fn len(&self) -> (n: usize)
        ensures
            n == self@.len(),
    {
        self.messages.len()
    }

    /// Whether the bundle has no messages.
    pub fn is_empty(&self) -> (empty: bool)
        ensures
            empty == (self@.len() == 0),
    {
        self.messages.len() == 0
    }
}

} // verus!
