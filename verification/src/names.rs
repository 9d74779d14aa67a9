//! The D-Bus name grammars and the validated string types built on them.
//!
//! A proxy is parameterised by a destination (a bus name: unique or
//! well-known), an object path, and an interface name; signal subscription
//! adds member names. Each kind has its own grammar; a string that does not
//! satisfy it is rejected at construction with [`Error::TypeConversion`].

use vstd::prelude::*;

use crate::Error;

verus! {

/// An ASCII letter.
pub open spec fn is_alpha(c: char) -> bool {
    (97 <= c as u32 && c as u32 <= 122) || (65 <= c as u32 && c as u32 <= 90)
}

/// An ASCII digit.
pub open spec fn is_digit(c: char) -> bool {
    48 <= c as u32 && c as u32 <= 57
}

/// A character allowed inside a name element: letters, digits, underscore,
/// and, where `hyphen` holds, hyphen (bus names allow it, interface names
/// do not).
pub open spec fn is_elem_char(c: char, hyphen: bool) -> bool {
    is_alpha(c) || is_digit(c) || c == '_' || (hyphen && c == '-')
}

/// `s` from position `from` on is a dot-separated run of at least two
/// non-empty elements over the allowed characters. `digit_start` says
/// whether an element may begin with a digit (true for unique names only).
pub open spec fn valid_elements(s: Seq<char>, from: int, hyphen: bool, digit_start: bool) -> bool {
    &&& from < s.len()
    &&& s[from] != '.'
    &&& (digit_start || !is_digit(s[from]))
    &&& exists|i: int| from <= i < s.len() && s[i] == '.'
    &&& forall|i: int| from <= i < s.len() ==> is_elem_char(#[trigger] s[i], hyphen) || s[i] == '.'
    &&& forall|i: int| from <= i < s.len() && #[trigger] s[i] == '.' ==> i + 1 < s.len()
        && s[i + 1] != '.' && (digit_start || !is_digit(s[i + 1]))
}

/// The grammar of interface names: dotted elements of letters, digits and
/// underscore, none empty, none starting with a digit, at most 255
/// characters.
pub open spec fn valid_interface_name(s: Seq<char>) -> bool {
    s.len() <= 255 && valid_elements(s, 0, false, false)
}

/// The grammar of well-known bus names: as interface names, but hyphens are
/// also allowed.
pub open spec fn valid_well_known_name(s: Seq<char>) -> bool {
    s.len() <= 255 && valid_elements(s, 0, true, false)
}

/// The grammar of unique bus names: a colon, then dotted elements whose
/// characters are as in well-known names but may begin with digits.
pub open spec fn valid_unique_name(s: Seq<char>) -> bool {
    s.len() <= 255 && 1 <= s.len() && s[0] == ':' && valid_elements(s, 1, true, true)
}

/// A bus name is either unique or well-known.
pub open spec fn valid_bus_name(s: Seq<char>) -> bool {
    valid_unique_name(s) || valid_well_known_name(s)
}

/// The grammar of member (method and signal) names: letters, digits and
/// underscore, not starting with a digit, non-empty, at most 255 characters.
pub open spec fn valid_member_name(s: Seq<char>) -> bool {
    &&& 0 < s.len() <= 255
    &&& !is_digit(s[0])
    &&& forall|i: int| 0 <= i < s.len() ==> is_elem_char(#[trigger] s[i], false)
}

/// The grammar of object paths: `/`, or slash-separated non-empty elements
/// of letters, digits and underscore, with no trailing slash.
pub open spec fn valid_object_path(s: Seq<char>) -> bool {
    &&& 1 <= s.len()
    &&& s[0] == '/'
    &&& forall|i: int| 1 <= i < s.len() ==> is_elem_char(#[trigger] s[i], false) || s[i] == '/'
    &&& forall|i: int| 1 <= i < s.len() && #[trigger] s[i] == '/' ==> i + 1 < s.len() && s[i + 1] != '/'
}

fn alpha(c: char) -> (b: bool)
    ensures
        b == is_alpha(c),
{
    let u = c as u32;
    (97 <= u && u <= 122) || (65 <= u && u <= 90)
}

fn digit(c: char) -> (b: bool)
    ensures
        b == is_digit(c),
{
    let u = c as u32;
    48 <= u && u <= 57
}

fn elem_char(c: char, hyphen: bool) -> (b: bool)
    ensures
        b == is_elem_char(c, hyphen),
{
    alpha(c) || digit(c) || c == '_' || (hyphen && c == '-')
}

fn check_elements(s: &str, from: usize, hyphen: bool, digit_start: bool) -> (b: bool)
    ensures
        b == valid_elements(s@, from as int, hyphen, digit_start),
{
    let n = s.unicode_len();
    if from >= n {
        return false;
    }
    let c0 = s.get_char(from);
    if c0 == '.' {
        return false;
    }
    if !digit_start && digit(c0) {
        return false;
    }
    let mut found_dot = false;
    let mut i: usize = from;
    while i < n
        invariant
            from <= i <= n,
            n == s@.len(),
            from < n,
            s@[from as int] != '.',
            digit_start || !is_digit(s@[from as int]),
            found_dot == exists|j: int| from <= j < i && s@[j] == '.',
            forall|j: int| from <= j < i ==> is_elem_char(#[trigger] s@[j], hyphen) || s@[j] == '.',
            forall|j: int| from <= j < i && #[trigger] s@[j] == '.' ==> j + 1 < n
                && s@[j + 1] != '.' && (digit_start || !is_digit(s@[j + 1])),
        decreases n - i,
    {
        let c = s.get_char(i);
        if c == '.' {
            if i + 1 >= n {
                return false;
            }
            let c2 = s.get_char(i + 1);
            if c2 == '.' {
                return false;
            }
            if !digit_start && digit(c2) {
                return false;
            }
            found_dot = true;
        } else if !elem_char(c, hyphen) {
            return false;
        }
        i = i + 1;
    }
    found_dot
}

/// Whether `s` is a valid interface name.
pub fn check_interface_name(s: &str) -> (b: bool)
    ensures
        b == valid_interface_name(s@),
{
    s.unicode_len() <= 255 && check_elements(s, 0, false, false)
}

/// Whether `s` is a valid well-known bus name.
pub fn check_well_known_name(s: &str) -> (b: bool)
    ensures
        b == valid_well_known_name(s@),
{
    s.unicode_len() <= 255 && check_elements(s, 0, true, false)
}

/// Whether `s` is a valid unique bus name.
pub fn check_unique_name(s: &str) -> (b: bool)
    ensures
        b == valid_unique_name(s@),
{
    let n = s.unicode_len();
    n <= 255 && n >= 1 && s.get_char(0) == ':' && check_elements(s, 1, true, true)
}

/// Whether `s` is a valid member name.
pub fn check_member_name(s: &str) -> (b: bool)
    ensures
        b == valid_member_name(s@),
{
    let n = s.unicode_len();
    if n == 0 || n > 255 {
        return false;
    }
    if digit(s.get_char(0)) {
        return false;
    }
    let mut i: usize = 0;
    while i < n
        invariant
            i <= n,
            n == s@.len(),
            0 < n <= 255,
            !is_digit(s@[0]),
            forall|j: int| 0 <= j < i ==> is_elem_char(#[trigger] s@[j], false),
        decreases n - i,
    {
        if !elem_char(s.get_char(i), false) {
            return false;
        }
        i = i + 1;
    }
    true
}

/// Whether `s` is a valid object path.
pub fn check_object_path(s: &str) -> (b: bool)
    ensures
        b == valid_object_path(s@),
{
    let n = s.unicode_len();
    if n == 0 {
        return false;
    }
    if s.get_char(0) != '/' {
        return false;
    }
    let mut i: usize = 1;
    while i < n
        invariant
            1 <= i <= n,
            n == s@.len(),
            s@[0] == '/',
            forall|j: int| 1 <= j < i ==> is_elem_char(#[trigger] s@[j], false) || s@[j] == '/',
            forall|j: int| 1 <= j < i && #[trigger] s@[j] == '/' ==> j + 1 < n && s@[j + 1] != '/',
        decreases n - i,
    {
        let c = s.get_char(i);
        if c == '/' {
            if i + 1 >= n {
                return false;
            }
            if s.get_char(i + 1) == '/' {
                return false;
            }
        } else if !elem_char(c, false) {
            return false;
        }
        i = i + 1;
    }
    true
}

/// A validated unique bus name, such as `:1.42`.
#[derive(Debug)]
pub struct UniqueName {
    inner: String,
}

impl View for UniqueName {
    type V = Seq<char>;

    closed spec fn view(&self) -> Seq<char> {
        self.inner@
    }
}

impl UniqueName {
    /// The name satisfies the unique-name grammar.
    pub open spec fn wf(&self) -> bool {
        valid_unique_name(self@)
    }

    /// Validate `s` as a unique name.
    pub fn parse(s: &str) -> (r: Result<UniqueName, Error>)
        ensures
            r is Ok <==> valid_unique_name(s@),
            r matches Ok(name) ==> name@ == s@ && name.wf(),
            r matches Err(e) ==> e == Error::TypeConversion,
    {
        if check_unique_name(s) {
            Ok(UniqueName { inner: s.to_owned() })
        } else {
            Err(Error::TypeConversion)
        }
    }

    pub fn as_str(&self) -> (r: &str)
        ensures
            r@ == self@,
    {
        self.inner.as_str()
    }

    /// An owned copy with the same characters.
    pub fn dup(&self) -> (r: UniqueName)
        ensures
            r@ == self@,
    {
        UniqueName { inner: self.inner.clone() }
    }
}

/// A validated well-known bus name, such as `org.example.Foo`.
#[derive(Debug)]
pub struct WellKnownName {
    inner: String,
}

impl View for WellKnownName {
    type V = Seq<char>;

    closed spec fn view(&self) -> Seq<char> {
        self.inner@
    }
}

impl WellKnownName {
    /// The name satisfies the well-known-name grammar.
    pub open spec fn wf(&self) -> bool {
        valid_well_known_name(self@)
    }

    /// Validate `s` as a well-known name.
    pub fn parse(s: &str) -> (r: Result<WellKnownName, Error>)
        ensures
            r is Ok <==> valid_well_known_name(s@),
            r matches Ok(name) ==> name@ == s@ && name.wf(),
            r matches Err(e) ==> e == Error::TypeConversion,
    {
        if check_well_known_name(s) {
            Ok(WellKnownName { inner: s.to_owned() })
        } else {
            Err(Error::TypeConversion)
        }
    }

    pub fn as_str(&self) -> (r: &str)
        ensures
            r@ == self@,
    {
        self.inner.as_str()
    }

    /// An owned copy with the same characters.
    pub fn dup(&self) -> (r: WellKnownName)
        ensures
            r@ == self@,
    {
        WellKnownName { inner: self.inner.clone() }
    }
}

/// A validated bus name: the destination a proxy addresses.
#[derive(Debug)]
pub enum BusName {
    Unique(UniqueName),
    WellKnown(WellKnownName),
}

impl View for BusName {
    type V = Seq<char>;

    closed spec fn view(&self) -> Seq<char> {
        match self {
            BusName::Unique(n) => n@,
            BusName::WellKnown(n) => n@,
        }
    }
}

impl BusName {
    /// The variant matches the grammar of the name it holds.
    pub open spec fn wf(&self) -> bool {
        match self {
            BusName::Unique(n) => n.wf(),
            BusName::WellKnown(n) => n.wf(),
        }
    }

    /// Validate `s` as a bus name. A name starting with a colon must be a
    /// unique name; any other valid name is well-known.
    pub fn parse(s: &str) -> (r: Result<BusName, Error>)
        ensures
            r is Ok <==> valid_bus_name(s@),
            r matches Ok(name) ==> name@ == s@ && name.wf(),
            r matches Ok(name) ==> (name is Unique <==> valid_unique_name(s@)),
            r matches Err(e) ==> e == Error::TypeConversion,
    {
        if check_unique_name(s) {
            Ok(BusName::Unique(UniqueName { inner: s.to_owned() }))
        } else if check_well_known_name(s) {
            proof {
                // A well-known name cannot begin with the colon of a unique name.
                assert(!valid_unique_name(s@));
            }
            Ok(BusName::WellKnown(WellKnownName { inner: s.to_owned() }))
        } else {
            Err(Error::TypeConversion)
        }
    }

    pub fn as_str(&self) -> (r: &str)
        ensures
            r@ == self@,
    {
        match self {
            BusName::Unique(n) => n.as_str(),
            BusName::WellKnown(n) => n.as_str(),
        }
    }

    /// Whether this is a unique name.
    pub fn is_unique(&self) -> (r: bool)
        ensures
            r == (self is Unique),
    {
        matches!(self, BusName::Unique(_))
    }

    /// An owned copy with the same characters and variant.
    pub fn dup(&self) -> (r: BusName)
        ensures
            r@ == self@,
            r is Unique <==> self is Unique,
            r.wf() == self.wf(),
    {
        match self {
            BusName::Unique(n) => BusName::Unique(n.dup()),
            BusName::WellKnown(n) => BusName::WellKnown(n.dup()),
        }
    }
}

/// A validated object path, such as `/org/example/Foo`.
#[derive(Debug)]
pub struct ObjectPath {
    inner: String,
}

impl View for ObjectPath {
    type V = Seq<char>;

    closed spec fn view(&self) -> Seq<char> {
        self.inner@
    }
}

impl ObjectPath {
    /// The path satisfies the object-path grammar.
    pub open spec fn wf(&self) -> bool {
        valid_object_path(self@)
    }

    /// Validate `s` as an object path.
    pub fn parse(s: &str) -> (r: Result<ObjectPath, Error>)
        ensures
            r is Ok <==> valid_object_path(s@),
            r matches Ok(path) ==> path@ == s@ && path.wf(),
            r matches Err(e) ==> e == Error::TypeConversion,
    {
        if check_object_path(s) {
            Ok(ObjectPath { inner: s.to_owned() })
        } else {
            Err(Error::TypeConversion)
        }
    }

    pub fn as_str(&self) -> (r: &str)
        ensures
            r@ == self@,
    {
        self.inner.as_str()
    }

    /// An owned copy with the same characters.
    pub fn dup(&self) -> (r: ObjectPath)
        ensures
            r@ == self@,
    {
        ObjectPath { inner: self.inner.clone() }
    }
}

/// A validated interface name, such as `org.example.Iface`.
#[derive(Debug)]
pub struct InterfaceName {
    inner: String,
}

impl View for InterfaceName {
    type V = Seq<char>;

    closed spec fn view(&self) -> Seq<char> {
        self.inner@
    }
}

impl InterfaceName {
    /// The name satisfies the interface-name grammar.
    pub open spec fn wf(&self) -> bool {
        valid_interface_name(self@)
    }

    /// Validate `s` as an interface name.
    pub fn parse(s: &str) -> (r: Result<InterfaceName, Error>)
        ensures
            r is Ok <==> valid_interface_name(s@),
            r matches Ok(name) ==> name@ == s@ && name.wf(),
            r matches Err(e) ==> e == Error::TypeConversion,
    {
        if check_interface_name(s) {
            Ok(InterfaceName { inner: s.to_owned() })
        } else {
            Err(Error::TypeConversion)
        }
    }

    pub fn as_str(&self) -> (r: &str)
        ensures
            r@ == self@,
    {
        self.inner.as_str()
    }

    /// An owned copy with the same characters.
    pub fn dup(&self) -> (r: InterfaceName)
        ensures
            r@ == self@,
    {
        InterfaceName { inner: self.inner.clone() }
    }
}

/// A validated member name, such as `NameOwnerChanged`.
#[derive(Debug)]
pub struct MemberName {
    inner: String,
}

impl View for MemberName {
    type V = Seq<char>;

    closed spec fn view(&self) -> Seq<char> {
        self.inner@
    }
}

impl MemberName {
    /// The name satisfies the member-name grammar.
    pub open spec fn wf(&self) -> bool {
        valid_member_name(self@)
    }

    /// Validate `s` as a member name.
    pub fn parse(s: &str) -> (r: Result<MemberName, Error>)
        ensures
            r is Ok <==> valid_member_name(s@),
            r matches Ok(name) ==> name@ == s@ && name.wf(),
            r matches Err(e) ==> e == Error::TypeConversion,
    {
        if check_member_name(s) {
            Ok(MemberName { inner: s.to_owned() })
        } else {
            Err(Error::TypeConversion)
        }
    }

    pub fn as_str(&self) -> (r: &str)
        ensures
            r@ == self@,
    {
        self.inner.as_str()
    }

    /// An owned copy with the same characters.
    pub fn dup(&self) -> (r: MemberName)
        ensures
            r@ == self@,
    {
        MemberName { inner: self.inner.clone() }
    }
}

} // verus!
