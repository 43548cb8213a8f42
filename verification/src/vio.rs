//! Primitive value types carried by component payloads.

use vstd::prelude::*;
use vstd::string::StringExecFns;

verus! {

/// A namespaced name, rendered as `namespace:value`.
#[derive(Debug)]
pub struct Identifier {
    namespace: String,
    value: String,
}

impl Identifier {
    /// The characters of the namespace part.
    pub closed spec fn namespace_chars(&self) -> Seq<char> {
        self.namespace@
    }

    /// The characters of the value part.
    pub closed spec fn value_chars(&self) -> Seq<char> {
        self.value@
    }

    /// Neither part holds the `:` separator, so the rendered text splits
    /// back into its two parts unambiguously.
    pub open spec fn wf(&self) -> bool {
        !self.namespace_chars().contains(':') && !self.value_chars().contains(':')
    }

    /// The text form `namespace:value`.
    pub open spec fn render_chars(&self) -> Seq<char> {
        self.namespace_chars() + seq![':'] + self.value_chars()
    }

    pub fn render(&self) -> (r: String)
        ensures
            r@ == self.render_chars(),
    {
        proof {
            reveal_strlit(":");
        }
        let mut r = self.namespace.clone();
        r.append(":");
        r.append(self.value.as_str());
        proof {
            assert(r@ =~= self.render_chars());
        }
        r
    }

    /// The namespace part alone.
    pub fn namespace(&self) -> (r: &str)
        ensures
            r@ == self.namespace_chars(),
    {
        self.namespace.as_str()
    }

    /// The value part alone.
    pub fn value(&self) -> (r: &str)
        ensures
            r@ == self.value_chars(),
    {
        self.value.as_str()
    }

    pub fn new(namespace: String, value: String) -> (r: Self)
        requires
            !namespace@.contains(':'),
            !value@.contains(':'),
        ensures
            r.namespace_chars() == namespace@,
            r.value_chars() == value@,
            r.wf(),
    {
        Self { namespace, value }
    }
}

/// The rendered text of a well-formed identifier splits back into its
/// two parts in only one way: since neither part holds the separator,
/// equal renderings come from equal parts.
pub proof fn lemma_render_unambiguous(a: Identifier, b: Identifier)
    requires
        a.wf(),
        b.wf(),
        a.render_chars() == b.render_chars(),
    ensures
        a.namespace_chars() == b.namespace_chars(),
        a.value_chars() == b.value_chars(),
{
    let na = a.namespace_chars().len() as int;
    let nb = b.namespace_chars().len() as int;
    if na < nb {
        assert(a.render_chars()[na] == ':');
        assert(b.render_chars()[na] == b.namespace_chars()[na]);
        assert(b.namespace_chars().contains(':'));
        assert(false);
    }
    if nb < na {
        assert(b.render_chars()[nb] == ':');
        assert(a.render_chars()[nb] == a.namespace_chars()[nb]);
        assert(a.namespace_chars().contains(':'));
        assert(false);
    }
    assert forall|i: int| 0 <= i < na implies a.namespace_chars()[i]
        == b.namespace_chars()[i] by {
        assert(a.render_chars()[i] == a.namespace_chars()[i]);
        assert(b.render_chars()[i] == b.namespace_chars()[i]);
    }
    assert(a.namespace_chars() =~= b.namespace_chars());
    assert(a.render_chars().len() == na + 1 + a.value_chars().len());
    assert(b.render_chars().len() == nb + 1 + b.value_chars().len());
    assert(a.value_chars().len() == b.value_chars().len());
    assert forall|i: int| 0 <= i < a.value_chars().len() implies a.value_chars()[i]
        == b.value_chars()[i] by {
        assert(a.render_chars()[na + 1 + i] == a.value_chars()[i]);
        assert(b.render_chars()[na + 1 + i] == b.value_chars()[i]);
    }
    assert(a.value_chars() =~= b.value_chars());
}

impl Clone for Identifier {
    fn clone(&self) -> (r: Self)
        ensures
            r.namespace_chars() == self.namespace_chars(),
            r.value_chars() == self.value_chars(),
    {
        Identifier { namespace: self.namespace.clone(), value: self.value.clone() }
    }
}

/// An ordered 2-tuple, used as an intermediate value inside other
/// structures; it has no serialization contract of its own.
#[derive(Clone)]
pub struct Pair<T: Clone, K: Clone> {
    pub first: T,
    pub second: K,
}

impl<T: Clone, K: Clone> Pair<T, K> {
    pub fn new(first: T, second: K) -> (r: Self)
        ensures
            r.first == first,
            r.second == second,
    {
        Self { first, second }
    }
}

/// Snapshot capability: `build` freezes a cloneable value into a shared,
/// reference-counted handle. The pointee is fixed at the moment of the
/// call; whatever the originating value does afterwards cannot reach it.
pub trait Buildable: Clone + Sized {
    fn build(&self) -> (r: std::sync::Arc<Self>)
        ensures
            call_ensures(Self::clone, (self,), *r),
    {
        std::sync::Arc::new(self.clone())
    }
}

/// Relies on std::path::PathBuf, an owned filesystem path; values of it
/// only pass through this crate, which never looks inside one.
#[verifier::external_type_specification]
#[verifier::external_body]
pub struct ExPathBuf(std::path::PathBuf);

/// Emission capability: an implementer renders its state to the target
/// location. No type of this crate implements it; it is the surface the
/// external pack assembler consumes.
pub trait Generatable {
    fn generate(&self, path_buf: impl Into<std::path::PathBuf>);
}

/// A version triple with a prerelease flag. All three numbers are
/// non-negative.
pub struct SemVer {
    major: i32,
    minor: i32,
    patch: i32,
    beta: bool,
}

impl SemVer {
    pub closed spec fn spec_major(&self) -> int {
        self.major as int
    }

    pub closed spec fn spec_minor(&self) -> int {
        self.minor as int
    }

    pub closed spec fn spec_patch(&self) -> int {
        self.patch as int
    }

    pub closed spec fn spec_beta(&self) -> bool {
        self.beta
    }

    pub open spec fn wf(&self) -> bool {
        0 <= self.spec_major() && 0 <= self.spec_minor() && 0 <= self.spec_patch()
    }

    /// The dotted text form: `major.minor.patch`, with `-beta` appended
    /// for a prerelease.
    pub open spec fn render_chars(&self) -> Seq<char> {
        crate::decimal::dec_chars(self.spec_major()) + seq!['.'] + crate::decimal::dec_chars(
            self.spec_minor(),
        ) + seq!['.'] + crate::decimal::dec_chars(self.spec_patch()) + if self.spec_beta() {
            seq!['-', 'b', 'e', 't', 'a']
        } else {
            Seq::<char>::empty()
        }
    }

    /// The comma-separated text form: `major, minor, patch`, never with a
    /// prerelease suffix.
    pub open spec fn render_commas_chars(&self) -> Seq<char> {
        crate::decimal::dec_chars(self.spec_major()) + seq![',', ' '] + crate::decimal::dec_chars(
            self.spec_minor(),
        ) + seq![',', ' '] + crate::decimal::dec_chars(self.spec_patch())
    }

    pub fn new(major: i32, minor: i32, patch: i32) -> (r: Self)
        requires
            0 <= major,
            0 <= minor,
            0 <= patch,
        ensures
            r.spec_major() == major,
            r.spec_minor() == minor,
            r.spec_patch() == patch,
            !r.spec_beta(),
            r.wf(),
    {
        Self { major, minor, patch, beta: false }
    }

    pub fn new_beta(major: i32, minor: i32, patch: i32) -> (r: Self)
        requires
            0 <= major,
            0 <= minor,
            0 <= patch,
        ensures
            r.spec_major() == major,
            r.spec_minor() == minor,
            r.spec_patch() == patch,
            r.spec_beta(),
            r.wf(),
    {
        Self { major, minor, patch, beta: true }
    }

    pub fn render(&self) -> (r: String)
        requires
            self.wf(),
        ensures
            r@ == self.render_chars(),
    {
        proof {
            reveal_strlit(".");
            reveal_strlit("-beta");
        }
        let mut r = crate::decimal::render_u64(self.major as u64);
        r.append(".");
        let minor = crate::decimal::render_u64(self.minor as u64);
        r.append(minor.as_str());
        r.append(".");
        let patch = crate::decimal::render_u64(self.patch as u64);
        r.append(patch.as_str());
        if self.beta {
            r.append("-beta");
        }
        proof {
            assert(r@ =~= self.render_chars());
        }
        r
    }

    pub fn render_commas(&self) -> (r: String)
        requires
            self.wf(),
        ensures
            r@ == self.render_commas_chars(),
    {
        proof {
            reveal_strlit(", ");
        }
        let mut r = crate::decimal::render_u64(self.major as u64);
        r.append(", ");
        let minor = crate::decimal::render_u64(self.minor as u64);
        r.append(minor.as_str());
        r.append(", ");
        let patch = crate::decimal::render_u64(self.patch as u64);
        r.append(patch.as_str());
        proof {
            assert(r@ =~= self.render_commas_chars());
        }
        r
    }

    /// The game version this crate's output targets.
    pub fn current() -> (r: Self)
        ensures
            r.spec_major() == 1,
            r.spec_minor() == 21,
            r.spec_patch() == 40,
            !r.spec_beta(),
            r.wf(),
    {
        Self { major: 1, minor: 21, patch: 40, beta: false }
    }
}

impl Clone for SemVer {
    fn clone(&self) -> (r: Self)
        ensures
            r == *self,
    {
        SemVer { major: self.major, minor: self.minor, patch: self.patch, beta: self.beta }
    }
}

/// A closed range `[min, max]`. That `min <= max` is not enforced here:
/// callers are responsible for the order of the two bounds.
#[derive(Clone, Debug)]
pub struct RangeDescriptor<T: Clone> {
    pub min: T,
    pub max: T,
}

impl<T: Clone> RangeDescriptor<T> {
    pub fn new(min: T, max: T) -> (r: Self)
        ensures
            r.min == min,
            r.max == max,
    {
        Self { min, max }
    }
}

impl<T: Clone> Buildable for RangeDescriptor<T> {

}

/// Converts every element of a vector into the target type. Each output
/// element is a possible result of `into` on the input element at the
/// same position.
pub fn vec_into<T: Clone, U: Into<T>>(vec: Vec<U>) -> (r: Vec<T>)
    ensures
        r@.len() == vec@.len(),
        forall|i: int|
            0 <= i < vec@.len() ==> call_ensures(
                <U as Into<T>>::into,
                (vec@[i],),
                #[trigger] r@[i],
            ),
{
    let ghost orig = vec@;
    let mut vec = vec;
    let mut r: Vec<T> = Vec::new();
    while vec.len() > 0
        invariant
            r@.len() + vec@.len() == orig.len(),
            vec@ == orig.skip(r@.len() as int),
            forall|i: int|
                0 <= i < r@.len() ==> call_ensures(
                    <U as Into<T>>::into,
                    (orig[i],),
                    #[trigger] r@[i],
                ),
        decreases vec@.len(),
    {
        let e = vec.remove(0);
        proof {
            assert(e == orig[r@.len() as int]);
        }
        let t = e.into();
        r.push(t);
        proof {
            assert(vec@ =~= orig.skip(r@.len() as int));
        }
    }
    r
}

/// An opaque scripting expression: a single string, serialized as exactly
/// its contained text with no structural wrapping.
#[derive(Clone, Debug)]
pub struct MolangStatement(String);

impl MolangStatement {
    /// The contained text.
    pub closed spec fn text_chars(&self) -> Seq<char> {
        self.0@
    }

    pub fn new(src: String) -> (r: Self)
        ensures
            r.text_chars() == src@,
    {
        MolangStatement(src)
    }

    /// The contained text, exactly as it will be embedded.
    pub fn text(&self) -> (r: &str)
        ensures
            r@ == self.text_chars(),
    {
        self.0.as_str()
    }
}

/// The closed set of named text colors. Each variant maps to exactly one
/// two-character escape token, and no two variants share a token.
#[derive(Clone, Debug, PartialEq, Eq, Structural)]
pub enum ColorCode {
    Black,
    DarkBlue,
    DarkGreen,
    DarkAqua,
    DarkRed,
    DarkPurple,
    Gold,
    Gray,
    DarkGray,
    Blue,
    Green,
    Aqua,
    Red,
    LightPurple,
    Yellow,
    White,
    MinecoinGold,
    MaterialQuartz,
    MaterialIron,
    MaterialNetherite,
    MaterialRedstone,
    MaterialCopper,
    MaterialGold,
    MaterialEmerald,
    MaterialDiamond,
    MaterialLapis,
    MaterialAmethyst,
    MaterialResin,
}

impl ColorCode {
    /// The distinguishing character of this variant's escape token.
    pub open spec fn code_char(&self) -> char {
        match self {
            ColorCode::Black => '0',
            ColorCode::DarkBlue => '1',
            ColorCode::DarkGreen => '2',
            ColorCode::DarkAqua => '3',
            ColorCode::DarkRed => '4',
            ColorCode::DarkPurple => '5',
            ColorCode::Gold => '6',
            ColorCode::Gray => '7',
            ColorCode::DarkGray => '8',
            ColorCode::Blue => '9',
            ColorCode::Green => 'a',
            ColorCode::Aqua => 'b',
            ColorCode::Red => 'c',
            ColorCode::LightPurple => 'd',
            ColorCode::Yellow => 'e',
            ColorCode::White => 'f',
            ColorCode::MinecoinGold => 'g',
            ColorCode::MaterialQuartz => 'h',
            ColorCode::MaterialIron => 'i',
            ColorCode::MaterialNetherite => 'j',
            ColorCode::MaterialRedstone => 'm',
            ColorCode::MaterialCopper => 'n',
            ColorCode::MaterialGold => 'p',
            ColorCode::MaterialEmerald => 'q',
            ColorCode::MaterialDiamond => 's',
            ColorCode::MaterialLapis => 't',
            ColorCode::MaterialAmethyst => 'u',
            ColorCode::MaterialResin => 'v',
        }
    }

    /// The full escape token: `§` followed by the distinguishing
    /// character. Total: every variant has exactly one token.
    pub open spec fn token_chars(&self) -> Seq<char> {
        seq!['§', self.code_char()]
    }

    /// The color code for use in strings (in the form `§X`).
    pub fn str_code(&self) -> (r: &str)
        ensures
            r@ == self.token_chars(),
    {
        proof {
            reveal_strlit("§0");
            reveal_strlit("§1");
            reveal_strlit("§2");
            reveal_strlit("§3");
            reveal_strlit("§4");
            reveal_strlit("§5");
            reveal_strlit("§6");
            reveal_strlit("§7");
            reveal_strlit("§8");
            reveal_strlit("§9");
            reveal_strlit("§a");
            reveal_strlit("§b");
            reveal_strlit("§c");
            reveal_strlit("§d");
            reveal_strlit("§e");
            reveal_strlit("§f");
            reveal_strlit("§g");
            reveal_strlit("§h");
            reveal_strlit("§i");
            reveal_strlit("§j");
            reveal_strlit("§m");
            reveal_strlit("§n");
            reveal_strlit("§p");
            reveal_strlit("§q");
            reveal_strlit("§s");
            reveal_strlit("§t");
            reveal_strlit("§u");
            reveal_strlit("§v");
        }
        let r = match self {
            ColorCode::Black => "§0",
            ColorCode::DarkBlue => "§1",
            ColorCode::DarkGreen => "§2",
            ColorCode::DarkAqua => "§3",
            ColorCode::DarkRed => "§4",
            ColorCode::DarkPurple => "§5",
            ColorCode::Gold => "§6",
            ColorCode::Gray => "§7",
            ColorCode::DarkGray => "§8",
            ColorCode::Blue => "§9",
            ColorCode::Green => "§a",
            ColorCode::Aqua => "§b",
            ColorCode::Red => "§c",
            ColorCode::LightPurple => "§d",
            ColorCode::Yellow => "§e",
            ColorCode::White => "§f",
            ColorCode::MinecoinGold => "§g",
            ColorCode::MaterialQuartz => "§h",
            ColorCode::MaterialIron => "§i",
            ColorCode::MaterialNetherite => "§j",
            ColorCode::MaterialRedstone => "§m",
            ColorCode::MaterialCopper => "§n",
            ColorCode::MaterialGold => "§p",
            ColorCode::MaterialEmerald => "§q",
            ColorCode::MaterialDiamond => "§s",
            ColorCode::MaterialLapis => "§t",
            ColorCode::MaterialAmethyst => "§u",
            ColorCode::MaterialResin => "§v",
        };
        proof {
            assert(r@ =~= self.token_chars());
        }
        r
    }
}

/// Every escape token is two characters long and opens with `§`: the
/// token mapping is total over the variants.
pub proof fn lemma_color_token_total(c: ColorCode)
    ensures
        c.token_chars().len() == 2,
        c.token_chars()[0] == '§',
        c.token_chars()[1] == c.code_char(),
{
}

/// No two distinct variants share an escape token: the token mapping is
/// injective.
pub proof fn lemma_color_token_injective(a: ColorCode, b: ColorCode)
    requires
        a.token_chars() == b.token_chars(),
    ensures
        a == b,
{
    assert(a.token_chars()[1] == b.token_chars()[1]);
    assert(a.code_char() == b.code_char());
}

} // verus!


