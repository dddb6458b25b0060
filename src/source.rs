use vstd::prelude::*;
use vstd::string::StringSliceAdditionalSpecFns;
use vstd::utf8::encode_utf8;

verus! {

/// The byte value of `-`.
pub const DASH: u8 = 45;

/// The operand `arg` is the sentinel `-` that stands for standard input.
pub open spec fn names_stdin(arg: Seq<char>) -> bool {
    encode_utf8(arg) == seq![DASH]
}

/// A file operand: standard input, or a named file.
#[derive(Debug)]
pub enum Operand {
    Stdin,
    File(String),
}

/// The mathematical value of an operand: the path as characters.
pub enum OperandView {
    Stdin,
    File(Seq<char>),
}

impl View for Operand {
    type V = OperandView;

    open spec fn view(&self) -> OperandView {
        match self {
            Operand::Stdin => OperandView::Stdin,
            Operand::File(p) => OperandView::File(p@),
        }
    }
}

/// The operand that the argument `arg` denotes.
pub open spec fn operand_of(arg: Seq<char>) -> OperandView {
    if names_stdin(arg) {
        OperandView::Stdin
    } else {
        OperandView::File(arg)
    }
}

/// Resolves an argument to an operand: `-` is standard input, anything else a
/// file of that name.
pub fn operand(arg: &str) -> (r: Operand)
    ensures
        r@ == operand_of(arg@),
{
    let b = arg.as_bytes();
    if b.len() == 1 && b[0] == DASH {
        proof {
            assert(b@ =~= seq![DASH]);
        }
        Operand::Stdin
    } else {
        Operand::File(arg.to_owned())
    }
}

impl Operand {
    /// The name under which diagnostics mention this operand: `stdin` for
    /// standard input, the path otherwise.
    pub fn label(&self) -> (r: &str)
        ensures
            r@ == match self@ {
                OperandView::Stdin => "stdin"@,
                OperandView::File(p) => p,
            },
    {
        match self {
            Operand::Stdin => "stdin",
            Operand::File(p) => p.as_str(),
        }
    }
}

} // verus!
