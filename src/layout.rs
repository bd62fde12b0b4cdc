use vstd::prelude::*;

verus! {

/// Dvorak's keys, row by row from the top left.
pub open spec fn dvorak_keys() -> Seq<char> {
    seq![
        '\'', ',', '.', 'p', 'y', 'f', 'g', 'c', 'r', 'l', 'a', 'o', 'e', 'u', 'i', 'd', 'h',
        't', 'n', 's', '-', ';', 'q', 'j', 'k', 'x', 'b', 'm', 'w', 'v', 'z',
    ]
}

/// QWERTY's keys, row by row from the top left.
pub open spec fn qwerty_keys() -> Seq<char> {
    seq![
        'q', 'w', 'e', 'r', 't', 'y', 'u', 'i', 'o', 'p', 'a', 's', 'd', 'f', 'g', 'h', 'j',
        'k', 'l', ';', '\'', 'z', 'x', 'c', 'v', 'b', 'n', 'm', ',', '.', '/',
    ]
}

/// Colemak's keys, row by row from the top left.
pub open spec fn colemak_keys() -> Seq<char> {
    seq![
        'q', 'w', 'f', 'p', 'g', 'j', 'l', 'u', 'y', ';', 'a', 'r', 's', 't', 'd', 'h', 'n',
        'e', 'i', 'o', '\'', 'z', 'x', 'c', 'v', 'b', 'k', 'm', ',', '.', '/',
    ]
}

/// Workman's keys, row by row from the top left.
pub open spec fn workman_keys() -> Seq<char> {
    seq![
        'q', 'd', 'r', 'w', 'b', 'j', 'f', 'u', 'p', ';', 'a', 's', 'h', 't', 'g', 'y', 'n',
        'e', 'o', 'i', '\'', 'z', 'x', 'm', 'c', 'v', 'k', 'l', ',', '.', '/',
    ]
}

/// The number of keys that every built-in layout lists.
pub const LAYOUT_KEY_COUNT: usize = 31;

/// The built-in layouts, as (name, keys), in registry order.
pub open spec fn builtin_layouts() -> Seq<(Seq<char>, Seq<char>)> {
    seq![
        ("dvorak"@, dvorak_keys()),
        ("qwerty"@, qwerty_keys()),
        ("colemak"@, colemak_keys()),
        ("workman"@, workman_keys()),
    ]
}

/// A named keyboard layout: the character on each physical key, in a fixed
/// scan order shared by all layouts.
pub struct KbdLayout {
    pub name: String,
    pub keys: Vec<char>,
}

impl View for KbdLayout {
    type V = (Seq<char>, Seq<char>);

    open spec fn view(&self) -> (Seq<char>, Seq<char>) {
        (self.name@, self.keys@)
    }
}

/// The views of a list of layouts.
pub open spec fn layouts_view(ls: Seq<KbdLayout>) -> Seq<(Seq<char>, Seq<char>)> {
    ls.map_values(|l: KbdLayout| l@)
}

fn make_layout(name: &str, keys: Vec<char>) -> (l: KbdLayout)
    ensures
        l@ == (name@, keys@),
{
    KbdLayout { name: name.to_string(), keys }
}

/// The registry of built-in layouts.
pub fn create_layouts() -> (r: Vec<KbdLayout>)
    ensures
        layouts_view(r@) == builtin_layouts(),
{
    let dvorak = make_layout(
        "dvorak",
        vec![
            '\'', ',', '.', 'p', 'y', 'f', 'g', 'c', 'r', 'l', 'a', 'o', 'e', 'u', 'i', 'd', 'h',
            't', 'n', 's', '-', ';', 'q', 'j', 'k', 'x', 'b', 'm', 'w', 'v', 'z',
        ],
    );
    let qwerty = make_layout(
        "qwerty",
        vec![
            'q', 'w', 'e', 'r', 't', 'y', 'u', 'i', 'o', 'p', 'a', 's', 'd', 'f', 'g', 'h', 'j',
            'k', 'l', ';', '\'', 'z', 'x', 'c', 'v', 'b', 'n', 'm', ',', '.', '/',
        ],
    );
    let colemak = make_layout(
        "colemak",
        vec![
            'q', 'w', 'f', 'p', 'g', 'j', 'l', 'u', 'y', ';', 'a', 'r', 's', 't', 'd', 'h', 'n',
            'e', 'i', 'o', '\'', 'z', 'x', 'c', 'v', 'b', 'k', 'm', ',', '.', '/',
        ],
    );
    let workman = make_layout(
        "workman",
        vec![
            'q', 'd', 'r', 'w', 'b', 'j', 'f', 'u', 'p', ';', 'a', 's', 'h', 't', 'g', 'y', 'n',
            'e', 'o', 'i', '\'', 'z', 'x', 'm', 'c', 'v', 'k', 'l', ',', '.', '/',
        ],
    );
    let r = vec![dvorak, qwerty, colemak, workman];
    assert(layouts_view(r@) =~= builtin_layouts());
    r
}

/// Every built-in layout lists the same number of keys, and no key twice.
pub proof fn lemma_builtin_layouts_uniform()
    ensures
        forall|i: int|
            0 <= i < builtin_layouts().len() ==> {
                &&& (#[trigger] builtin_layouts()[i]).1.len() == LAYOUT_KEY_COUNT
                &&& builtin_layouts()[i].1.no_duplicates()
            },
{
    assert(dvorak_keys().no_duplicates());
    assert(qwerty_keys().no_duplicates());
    assert(colemak_keys().no_duplicates());
    assert(workman_keys().no_duplicates());
}

/// The position of the first layout named `name`, if there is one.
pub fn find_layout(layouts: &Vec<KbdLayout>, name: &String) -> (r: Option<usize>)
    ensures
        match r {
            Some(i) => {
                &&& i < layouts@.len()
                &&& layouts@[i as int].name@ == name@
                &&& forall|j: int| 0 <= j < i ==> layouts@[j].name@ != name@
            },
            None => forall|j: int| 0 <= j < layouts@.len() ==> layouts@[j].name@ != name@,
        },
{
    let mut i: usize = 0;
    while i < layouts.len()
        invariant
            i <= layouts@.len(),
            forall|j: int| 0 <= j < i ==> layouts@[j].name@ != name@,
        decreases layouts@.len() - i,
    {
        if layouts[i].name == *name {
            return Some(i);
        }
        i = i + 1;
    }
    None
}

} // verus!
