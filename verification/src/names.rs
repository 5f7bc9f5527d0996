//! The custom section "name": names of the module, its functions and its globals
use crate::error::{read_error_kind, CompileErrorKind};
use crate::leb128::{decode_blob, decode_u32, Leb128Reader, ReadError};
use crate::types::{decode_name_string, lemma_decode_name_string_len};
use vstd::prelude::*;

verus! {

/// Names by index, as decoded
pub type NameList = Seq<(usize, Seq<char>)>;

/// `count` pairs of an index and a string, appended to `acc`
pub open spec fn decode_name_map(s: Seq<u8>, count: nat, acc: NameList) -> Result<NameList, CompileErrorKind>
    decreases count,
{
    if count == 0 {
        Ok(acc)
    } else {
        match decode_u32(s) {
            Err(e) => Err(read_error_kind(e)),
            Ok((idx, n1)) => match decode_name_string(s.skip(n1 as int)) {
                Err(e) => Err(e),
                Ok((t, n2)) => decode_name_map(
                    s.skip((n1 + n2) as int),
                    (count - 1) as nat,
                    acc.push((idx as usize, t)),
                ),
            },
        }
    }
}

/// A name map: its length, then the pairs, appended to `acc`
pub open spec fn decode_name_vec(s: Seq<u8>, acc: NameList) -> Result<NameList, CompileErrorKind> {
    match decode_u32(s) {
        Err(e) => Err(read_error_kind(e)),
        Ok((count, n)) => decode_name_map(s.skip(n as int), count, acc),
    }
}

/// The names decoded so far: the module name, the function names and the global names
pub type NameState = (Option<Seq<char>>, NameList, NameList);

/// The effect of one subsection with identifier `id` and content `blob`
pub open spec fn apply_name_subsection(id: u8, blob: Seq<u8>, acc: NameState) -> Result<NameState, CompileErrorKind> {
    if id == 0 {
        Ok(
            (
                match decode_name_string(blob) {
                    Ok((t, _)) => Some(t),
                    Err(_) => None,
                },
                acc.1,
                acc.2,
            ),
        )
    } else if id == 1 {
        match decode_name_vec(blob, acc.1) {
            Ok(f) => Ok((acc.0, f, acc.2)),
            Err(e) => Err(e),
        }
    } else if id == 7 {
        match decode_name_vec(blob, acc.2) {
            Ok(g) => Ok((acc.0, acc.1, g)),
            Err(e) => Err(e),
        }
    } else {
        Ok(acc)
    }
}

/// A successful decoding of a blob takes no more bytes than there are.
pub proof fn lemma_decode_blob_len(s: Seq<u8>)
    ensures
        decode_blob(s) matches Ok((b, n)) ==> n <= s.len() && b.len() <= n,
{
    crate::leb128::lemma_decode_unsigned_bounds(s, 5, 16);
}

/// The subsections of a name section, each an identifier byte and a blob, applied to `acc`
pub open spec fn decode_names(s: Seq<u8>, acc: NameState) -> Result<NameState, CompileErrorKind>
    decreases s.len(),
{
    if s.len() == 0 {
        Ok(acc)
    } else {
        match decode_blob(s.skip(1)) {
            Err(e) => Err(read_error_kind(e)),
            Ok((blob, n)) => match apply_name_subsection(s[0], blob, acc) {
                Err(e) => Err(e),
                Ok(acc2) => {
                    proof {
                        lemma_decode_blob_len(s.skip(1));
                    }
                    decode_names(s.skip((1 + n) as int), acc2)
                },
            },
        }
    }
}

/// The names of a list as a sequence of plain values
pub open spec fn name_list_view(v: Seq<(usize, String)>) -> NameList {
    v.map_values(|p: (usize, String)| (p.0, p.1@))
}

/// WebAssembly name section
pub struct WasmName {
    module: Option<String>,
    functions: Vec<(usize, String)>,
    globals: Vec<(usize, String)>,
}

/// Reads `count` names after `acc`.
fn read_name_map(reader: &mut Leb128Reader, count: usize, acc: &mut Vec<(usize, String)>) -> (r: Result<(), CompileErrorKind>)
    ensures
        match decode_name_map(old(reader).rest(), count as nat, name_list_view(old(acc)@)) {
            Ok(l) => r is Ok && name_list_view(final(acc)@) == l,
            Err(e) => r matches Err(e2) && e2 == e,
        },
{
    let ghost s0 = reader.rest();
    let ghost a0 = name_list_view(acc@);
    let mut i: usize = 0;
    while i < count
        invariant
            i <= count,
            s0 == old(reader).rest(),
            a0 == name_list_view(old(acc)@),
            decode_name_map(s0, count as nat, a0) == decode_name_map(
                reader.rest(),
                (count - i) as nat,
                name_list_view(acc@),
            ),
        decreases count - i,
    {
        let ghost r0 = *reader;
        let idx = match reader.read_usize() {
            Ok(v) => v,
            Err(e) => return Err(CompileErrorKind::from_read_error(e)),
        };
        let ghost r1 = *reader;
        proof {
            crate::leb128::lemma_decode_unsigned_bounds(r0.rest(), 5, 16);
            r0.lemma_advanced_rest(&r1, decode_u32(r0.rest()).unwrap().1);
        }
        let s = match reader.get_string() {
            Ok(t) => t,
            Err(e) => return Err(CompileErrorKind::from_read_error(e)),
        };
        proof {
            let n1 = decode_u32(r0.rest()).unwrap().1;
            let n2 = decode_name_string(r1.rest()).unwrap().1;
            lemma_decode_name_string_len(r1.rest());
            r1.lemma_advanced_rest(reader, n2);
            assert(reader.rest() =~= r0.rest().skip((n1 + n2) as int));
        }
        let ghost before = acc@;
        acc.push((idx, s));
        proof {
            assert(name_list_view(acc@) =~= name_list_view(before).push((idx, s@)));
        }
        i = i + 1;
    }
    Ok(())
}

/// Reads a name map (a length, then the pairs) after `acc`.
fn read_name_vec(reader: &mut Leb128Reader, acc: &mut Vec<(usize, String)>) -> (r: Result<(), CompileErrorKind>)
    ensures
        match decode_name_vec(old(reader).rest(), name_list_view(old(acc)@)) {
            Ok(l) => r is Ok && name_list_view(final(acc)@) == l,
            Err(e) => r matches Err(e2) && e2 == e,
        },
{
    let ghost r0 = *reader;
    let length = match reader.read_usize() {
        Ok(v) => v,
        Err(e) => return Err(CompileErrorKind::from_read_error(e)),
    };
    proof {
        crate::leb128::lemma_decode_unsigned_bounds(r0.rest(), 5, 16);
        r0.lemma_advanced_rest(reader, decode_u32(r0.rest()).unwrap().1);
    }
    read_name_map(reader, length, acc)
}

/// The module name, if any, as plain characters
pub open spec fn module_name_view(m: Option<String>) -> Option<Seq<char>> {
    match m {
        Some(t) => Some(t@),
        None => None,
    }
}

/// Applies the subsection with identifier `name_id` and content `blob`.
fn apply_subsection(
    name_id: u8,
    blob: &Vec<u8>,
    module: &mut Option<String>,
    functions: &mut Vec<(usize, String)>,
    globals: &mut Vec<(usize, String)>,
) -> (r: Result<(), CompileErrorKind>)
    ensures
        match apply_name_subsection(
            name_id,
            blob@,
            (module_name_view(*old(module)), name_list_view(old(functions)@), name_list_view(old(globals)@)),
        ) {
            Ok(st) => r is Ok && st == (module_name_view(*final(module)), name_list_view(final(functions)@),
                name_list_view(final(globals)@)),
            Err(e) => r matches Err(e2) && e2 == e,
        },
{
    let mut sub = Leb128Reader::from_slice(blob.as_slice());
    proof {
        assert(sub.rest() =~= blob@);
    }
    if name_id == 0 {
        *module = match sub.get_string() {
            Ok(t) => Some(t),
            Err(_) => None,
        };
        Ok(())
    } else if name_id == 1 {
        read_name_vec(&mut sub, functions)
    } else if name_id == 7 {
        read_name_vec(&mut sub, globals)
    } else {
        Ok(())
    }
}

impl WasmName {
    /// The name of the custom section that holds names
    pub const SECTION_NAME: &'static str = "name";

    /// The names as plain values
    pub closed spec fn state(&self) -> NameState {
        (
            match self.module {
                Some(m) => Some(m@),
                None => None,
            },
            name_list_view(self.functions@),
            name_list_view(self.globals@),
        )
    }

    /// Reads the content of a name section.
    pub fn from_reader(reader: &mut Leb128Reader) -> (r: Result<Self, CompileErrorKind>)
        ensures
            match decode_names(old(reader).rest(), (None, Seq::empty(), Seq::empty())) {
                Ok(st) => (r matches Ok(n) && n.state() == st),
                Err(e) => r matches Err(e2) && e2 == e,
            },
    {
        let mut module: Option<String> = None;
        let mut functions: Vec<(usize, String)> = Vec::new();
        let mut globals: Vec<(usize, String)> = Vec::new();
        let ghost s0 = reader.rest();
        proof {
            assert(name_list_view(functions@) =~= Seq::<(usize, Seq<char>)>::empty());
            assert(name_list_view(globals@) =~= Seq::<(usize, Seq<char>)>::empty());
        }
        while !reader.is_eof()
            invariant
                s0 == old(reader).rest(),
                decode_names(s0, (None, Seq::empty(), Seq::empty())) == decode_names(
                    reader.rest(),
                    (
                        match module {
                            Some(m) => Some(m@),
                            None => None,
                        },
                        name_list_view(functions@),
                        name_list_view(globals@),
                    ),
                ),
            decreases reader.rest().len(),
        {
            let ghost r0 = *reader;
            let name_id = match reader.read_byte() {
                Ok(b) => b,
                Err(e) => return Err(CompileErrorKind::from_read_error(e)),
            };
            let ghost r1 = *reader;
            proof {
                r0.lemma_advanced_rest(&r1, 1);
            }
            let blob = match reader.read_blob() {
                Ok(b) => b,
                Err(e) => return Err(CompileErrorKind::from_read_error(e)),
            };
            proof {
                let n = decode_blob(r1.rest()).unwrap().1;
                lemma_decode_blob_len(r1.rest());
                r1.lemma_advanced_rest(reader, n);
                assert(reader.rest() =~= r0.rest().skip((1 + n) as int));
            }
            apply_subsection(name_id, &blob, &mut module, &mut functions, &mut globals)?;
        }
        Ok(Self { module, functions, globals })
    }

    /// The name of the module
    pub fn module(&self) -> (r: Option<&str>)
        ensures
            match r {
                Some(t) => self.state().0 == Some(t@),
                None => self.state().0 is None,
            },
    {
        match &self.module {
            Some(m) => Some(m.as_str()),
            None => None,
        }
    }

    /// The names of functions by index
    pub fn functions(&self) -> (r: &[(usize, String)])
        ensures
            name_list_view(r@) == self.state().1,
    {
        self.functions.as_slice()
    }

    /// The names of globals by index
    pub fn globals(&self) -> (r: &[(usize, String)])
        ensures
            name_list_view(r@) == self.state().2,
    {
        self.globals.as_slice()
    }

    /// The name of the function with the given index.
    pub fn func_by_index(&self, index: usize) -> (r: Option<&str>)
        ensures
            r matches Some(t) ==> self.state().1.contains((index, t@)),
            keys_sorted(self.state().1) && (exists|i: int|
                0 <= i < self.state().1.len() && (#[trigger] self.state().1[i]).0 == index) ==> r is Some,
    {
        search_by_index(self.functions.as_slice(), index)
    }

    /// The name of the global with the given index.
    pub fn global_by_index(&self, index: usize) -> (r: Option<&str>)
        ensures
            r matches Some(t) ==> self.state().2.contains((index, t@)),
            keys_sorted(self.state().2) && (exists|i: int|
                0 <= i < self.state().2.len() && (#[trigger] self.state().2[i]).0 == index) ==> r is Some,
    {
        search_by_index(self.globals.as_slice(), index)
    }
}

/// Whether the indices of a list never decrease
pub open spec fn keys_sorted(l: NameList) -> bool {
    forall|i: int, j: int| 0 <= i <= j < l.len() ==> (#[trigger] l[i]).0 <= (#[trigger] l[j]).0
}

/// Binary search of a list of names for an index.
fn search_by_index(list: &[(usize, String)], index: usize) -> (r: Option<&str>)
    ensures
        r matches Some(t) ==> name_list_view(list@).contains((index, t@)),
        keys_sorted(name_list_view(list@)) && (exists|i: int|
            0 <= i < list@.len() && (#[trigger] name_list_view(list@)[i]).0 == index) ==> r is Some,
{
    let ghost l = name_list_view(list@);
    let mut lo: usize = 0;
    let mut hi: usize = list.len();
    while lo < hi
        invariant
            lo <= hi <= list.len(),
            l == name_list_view(list@),
            keys_sorted(l) ==> forall|i: int| 0 <= i < lo ==> (#[trigger] l[i]).0 < index,
            keys_sorted(l) ==> forall|i: int| hi <= i < list.len() ==> (#[trigger] l[i]).0 > index,
        decreases hi - lo,
    {
        let mid = lo + (hi - lo) / 2;
        let key = list[mid].0;
        if key == index {
            proof {
                assert(l[mid as int] == (index, list@[mid as int].1@));
            }
            return Some(list[mid].1.as_str());
        } else if key < index {
            proof {
                assert(l[mid as int].0 == key);
            }
            lo = mid + 1;
        } else {
            proof {
                assert(l[mid as int].0 == key);
            }
            hi = mid;
        }
    }
    proof {
        if keys_sorted(l) {
            assert forall|i: int| 0 <= i < list@.len() implies (#[trigger] l[i]).0 != index by {
                if i < lo {
                } else {
                }
            }
        }
    }
    None
}

} // verus!
