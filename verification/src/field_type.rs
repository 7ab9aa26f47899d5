//! The value types of directory entries and their byte widths.

use vstd::prelude::*;

verus! {

/// The type of the values of one directory entry.
///
/// A value of one of the twelve types of TIFF 6.0 carries a number: in a
/// value that a type code denotes it is the width of one value in bytes. The
/// width itself is fixed by the type and is what `size` gives.
/// `Unknown` stands for the reserved type code 0, `Unexpected` for every code
/// above 12, which a later revision of the format may define.
#[derive(Clone, Copy, Debug, PartialEq, Eq, Structural)]
pub enum Type {
    Unknown,
    Byte(u32),
    Ascii(u32),
    Short(u32),
    Long(u32),
    Rational(u32),
    Sbyte(u32),
    Undefined(u32),
    Sshort(u32),
    Slong(u32),
    Srational(u32),
    Float(u32),
    Double(u32),
    Unexpected,
}

impl Type {
    /// The width in bytes of one value of the type with the code `type_`:
    /// 0 for the reserved code 0 and for every code above 12.
    pub open spec fn width(type_: u16) -> u32 {
        if type_ == 1 || type_ == 2 || type_ == 6 || type_ == 7 {
            1
        } else if type_ == 3 || type_ == 8 {
            2
        } else if type_ == 4 || type_ == 9 || type_ == 11 {
            4
        } else if type_ == 5 || type_ == 10 || type_ == 12 {
            8
        } else {
            0
        }
    }

    /// The type that the code `type_` denotes.
    pub open spec fn spec_new(type_: u16) -> Type {
        match type_ {
            0 => Type::Unknown,
            1 => Type::Byte(1),
            2 => Type::Ascii(1),
            3 => Type::Short(2),
            4 => Type::Long(4),
            5 => Type::Rational(8),
            6 => Type::Sbyte(1),
            7 => Type::Undefined(1),
            8 => Type::Sshort(2),
            9 => Type::Slong(4),
            10 => Type::Srational(8),
            11 => Type::Float(4),
            12 => Type::Double(8),
            _ => Type::Unexpected,
        }
    }

    /// The width in bytes of one value of this type. The width is fixed by
    /// the type alone: 1 for `Byte`, `Ascii`, `Sbyte` and `Undefined`, 2 for
    /// `Short` and `Sshort`, 4 for `Long`, `Slong` and `Float`, 8 for
    /// `Rational`, `Srational` and `Double`, and 0 for `Unknown` and
    /// `Unexpected`. The number that a value carries has no part in it.
    pub open spec fn spec_size(&self) -> u32 {
        match self {
            Type::Byte(_) | Type::Ascii(_) | Type::Sbyte(_) | Type::Undefined(_) => 1,
            Type::Short(_) | Type::Sshort(_) => 2,
            Type::Long(_) | Type::Slong(_) | Type::Float(_) => 4,
            Type::Rational(_) | Type::Srational(_) | Type::Double(_) => 8,
            Type::Unknown | Type::Unexpected => 0,
        }
    }

    /// The type code of this value: none for `Unexpected`, which stands for
    /// many codes.
    pub open spec fn spec_code(&self) -> Option<u16> {
        match self {
            Type::Unknown => Some(0),
            Type::Byte(_) => Some(1),
            Type::Ascii(_) => Some(2),
            Type::Short(_) => Some(3),
            Type::Long(_) => Some(4),
            Type::Rational(_) => Some(5),
            Type::Sbyte(_) => Some(6),
            Type::Undefined(_) => Some(7),
            Type::Sshort(_) => Some(8),
            Type::Slong(_) => Some(9),
            Type::Srational(_) => Some(10),
            Type::Float(_) => Some(11),
            Type::Double(_) => Some(12),
            Type::Unexpected => None,
        }
    }

    /// Whether this value is one that a type code denotes: it carries the
    /// width that the format fixes for its type.
    pub open spec fn wf(&self) -> bool {
        match self.spec_code() {
            Some(code) => *self == Type::spec_new(code),
            None => true,
        }
    }

    /// Looks a type code up.
    #[must_use]
    pub fn new(type_: u16) -> (r: Type)
        ensures
            r == Type::spec_new(type_),
            r.wf(),
            r.spec_size() == Type::width(type_),
            type_ <= 12 <==> r.spec_code() == Some(type_),
            type_ > 12 <==> r == Type::Unexpected,
    {
        match type_ {
            0 => Type::Unknown,
            1 => Type::Byte(1),
            2 => Type::Ascii(1),
            3 => Type::Short(2),
            4 => Type::Long(4),
            5 => Type::Rational(8),
            6 => Type::Sbyte(1),
            7 => Type::Undefined(1),
            8 => Type::Sshort(2),
            9 => Type::Slong(4),
            10 => Type::Srational(8),
            11 => Type::Float(4),
            12 => Type::Double(8),
            _ => Type::Unexpected,
        }
    }

    /// The width in bytes of one value of this type: the width that the
    /// format fixes for the type, whatever number the value carries.
    #[must_use]
    #[verifier::when_used_as_spec(spec_size)]
    pub fn size(&self) -> (r: u32)
        ensures
            r == self.spec_size(),
            self.spec_code() matches Some(code) ==> r == Type::width(code),
    {
        match self {
            Type::Byte(_) | Type::Ascii(_) | Type::Sbyte(_) | Type::Undefined(_) => 1,
            Type::Short(_) | Type::Sshort(_) => 2,
            Type::Long(_) | Type::Slong(_) | Type::Float(_) => 4,
            Type::Rational(_) | Type::Srational(_) | Type::Double(_) => 8,
            Type::Unknown | Type::Unexpected => 0,
        }
    }
}

/// The width hangs on the type alone. Two values of the same type have the
/// same width, whatever numbers they carry, and the width is the one that
/// the format fixes for the code of the type.
pub proof fn lemma_width_by_variant(a: Type, b: Type)
    requires
        a.spec_code() == b.spec_code(),
    ensures
        a.spec_size() == b.spec_size(),
        a.spec_code() matches Some(code) ==> a.spec_size() == Type::width(code),
        a.spec_code() is None ==> a.spec_size() == 0,
{
}

} // verus!
