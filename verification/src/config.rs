//! The configuration: its defaults, and what its key bindings mean.
use crate::action::{parse_action, Action, ActionView};
use crate::text;
use vstd::prelude::*;

verus! {

/// What the user can set. The share of the master in the tiled layout is not among it: it is a
/// fraction, and the program turns it into a width.
pub struct Config {
    pub border_px: i32,
    pub gap: i32,
    pub default_layout: String,
    pub focus_follows_mouse: bool,
    pub colors: Colors,
    pub bindings: Vec<Binding>,
}

/// The colours of borders, each as `#rrggbbaa`.
pub struct Colors {
    pub focused: String,
    pub unfocused: String,
}

/// A key binding: keys joined by plus signs, the name of an action, and its argument.
pub struct Binding {
    pub keys: String,
    pub action: String,
    pub arg: String,
}

/// A key binding, with its texts as sequences of characters.
pub struct BindingView {
    pub keys: Seq<char>,
    pub action: Seq<char>,
    pub arg: Seq<char>,
}

impl View for Binding {
    type V = BindingView;

    open spec fn view(&self) -> BindingView {
        BindingView { keys: self.keys@, action: self.action@, arg: self.arg@ }
    }
}

impl Clone for Binding {
    fn clone(&self) -> (copy: Self)
        ensures
            copy@ == self@,
    {
        Binding { keys: self.keys.clone(), action: self.action.clone(), arg: self.arg.clone() }
    }
}

/// The bindings of a vector.
pub open spec fn binding_views(v: Seq<Binding>) -> Seq<BindingView> {
    v.map_values(|b: Binding| b@)
}

/// A binding from three literals.
pub open spec fn binding_of(keys: &str, action: &str, arg: &str) -> BindingView {
    BindingView { keys: keys@, action: action@, arg: arg@ }
}

/// The key bindings that hold where the user sets none.
pub open spec fn default_table() -> Seq<BindingView> {
    seq![
        binding_of("Super+Return", "spawn", "kitty"),
        binding_of("Super+q", "close", ""),
        binding_of("Super+Shift+e", "quit", ""),
        binding_of("Super+j", "focus_next", ""),
        binding_of("Super+k", "focus_prev", ""),
        binding_of("Super+t", "set_layout", "tile"),
        binding_of("Super+g", "set_layout", "grid"),
        binding_of("Super+m", "set_layout", "monocle"),
        binding_of("Super+space", "toggle_float", ""),
        binding_of("Super+r", "reload", ""),
    ]
}

impl Default for Config {
    fn default() -> (config: Self)
        ensures
            config.border_px == 2,
            config.gap == 0,
            config.default_layout@ == "tile"@,
            !config.focus_follows_mouse,
            config.colors.focused@ == "#88c0d0ff"@,
            config.colors.unfocused@ == "#3b4252ff"@,
            binding_views(config.bindings@) == default_table(),
    {
        Config {
            border_px: 2,
            gap: 0,
            default_layout: "tile".to_string(),
            focus_follows_mouse: false,
            colors: Colors::default(),
            bindings: default_bindings(),
        }
    }
}

impl Default for Colors {
    fn default() -> (colors: Self)
        ensures
            colors.focused@ == "#88c0d0ff"@,
            colors.unfocused@ == "#3b4252ff"@,
    {
        Colors { focused: "#88c0d0ff".to_string(), unfocused: "#3b4252ff".to_string() }
    }
}

/// Makes a binding.
fn bind(keys: &str, action: &str, arg: &str) -> (binding: Binding)
    ensures
        binding@ == binding_of(keys, action, arg),
{
    Binding { keys: keys.to_string(), action: action.to_string(), arg: arg.to_string() }
}

/// The key bindings that hold where the user sets none.
pub fn default_bindings() -> (bindings: Vec<Binding>)
    ensures
        binding_views(bindings@) == default_table(),
{
    let mut bindings: Vec<Binding> = Vec::new();
    bindings.push(bind("Super+Return", "spawn", "kitty"));
    bindings.push(bind("Super+q", "close", ""));
    bindings.push(bind("Super+Shift+e", "quit", ""));
    bindings.push(bind("Super+j", "focus_next", ""));
    bindings.push(bind("Super+k", "focus_prev", ""));
    bindings.push(bind("Super+t", "set_layout", "tile"));
    bindings.push(bind("Super+g", "set_layout", "grid"));
    bindings.push(bind("Super+m", "set_layout", "monocle"));
    bindings.push(bind("Super+space", "toggle_float", ""));
    bindings.push(bind("Super+r", "reload", ""));
    assert(binding_views(bindings@) =~= default_table());
    bindings
}

/// The bit of the modifier that a name stands for, whatever the case of its letters. No letter
/// outside ASCII has a small form that occurs in one of the names.
pub open spec fn modifier_named(name: Seq<char>) -> Option<u32> {
    let low = text::ascii_lowered(name);
    if low == "super"@ || low == "meta"@ || low == "win"@ || low == "logo"@ || low == "mod4"@ {
        Some(64)
    } else if low == "shift"@ {
        Some(1)
    } else if low == "ctrl"@ || low == "control"@ {
        Some(4)
    } else if low == "alt"@ || low == "mod1"@ {
        Some(8)
    } else {
        None
    }
}

/// The bits of all modifiers in a list, if each is known.
pub open spec fn modifiers(names: Seq<Seq<char>>) -> Option<u32>
    decreases names.len(),
{
    if names.len() == 0 {
        Some(0)
    } else {
        match (modifiers(names.drop_last()), modifier_named(names.last())) {
            (Some(bits), Some(bit)) => Some(bits | bit),
            _ => None,
        }
    }
}

/// The parts of a key combination: the modifiers, and last the key.
pub open spec fn key_parts(keys: Seq<char>) -> Seq<Seq<char>> {
    text::parts(keys, text::Separator::Char('+'))
}

/// The key symbol and the modifiers of a key combination, where `keysym` is the symbol of its
/// key, or zero if there is no such key.
pub open spec fn combination(keys: Seq<char>, keysym: u32) -> Option<(u32, u32)> {
    match modifiers(key_parts(keys).drop_last()) {
        Some(mods) => if keysym == 0 {
            None
        } else {
            Some((keysym, mods))
        },
        None => None,
    }
}

/// Reads the name of a modifier.
fn read_modifier(name: &str) -> (bit: Option<u32>)
    ensures
        bit == modifier_named(name@),
{
    if text::is_lowered(name, "super") || text::is_lowered(name, "meta") || text::is_lowered(
        name,
        "win",
    ) || text::is_lowered(name, "logo") || text::is_lowered(name, "mod4") {
        Some(64)
    } else if text::is_lowered(name, "shift") {
        Some(1)
    } else if text::is_lowered(name, "ctrl") || text::is_lowered(name, "control") {
        Some(4)
    } else if text::is_lowered(name, "alt") || text::is_lowered(name, "mod1") {
        Some(8)
    } else {
        None
    }
}

/// Reads the modifiers before the last part of a key combination.
fn read_modifiers(list: &Vec<String>) -> (mods: Option<u32>)
    requires
        list@.len() > 0,
    ensures
        mods == modifiers(text::texts(list@).drop_last()),
{
    let ghost names = text::texts(list@).drop_last();
    let mut mods: u32 = 0;
    for i in 0..list.len() - 1
        invariant
            list@.len() > 0,
            names == text::texts(list@).drop_last(),
            modifiers(names.take(i as int)) == Some(mods),
    {
        assert(names.take(i + 1).drop_last() =~= names.take(i as int));
        assert(names[i as int] == list@[i as int]@);
        match read_modifier(list[i].as_str()) {
            Some(bit) => {
                mods = mods | bit;
            },
            None => {
                proof {
                    lemma_unknown_modifier(names, i + 1);
                }
                return None;
            },
        }
    }
    assert(names.take(names.len() as int) =~= names);
    Some(mods)
}

/// An unknown modifier anywhere makes the whole list unknown.
proof fn lemma_unknown_modifier(names: Seq<Seq<char>>, n: int)
    requires
        0 <= n <= names.len(),
        modifiers(names.take(n)) is None,
    ensures
        modifiers(names) is None,
    decreases names.len() - n,
{
    if n == names.len() {
        assert(names.take(n) =~= names);
    } else {
        assert(names.take(n + 1).drop_last() =~= names.take(n));
        lemma_unknown_modifier(names, n + 1);
    }
}

/// The name of the key in a combination, if its modifiers are known.
pub open spec fn key_named(keys: Seq<char>) -> Option<Seq<char>> {
    match modifiers(key_parts(keys).drop_last()) {
        Some(_) => Some(key_parts(keys).last()),
        None => None,
    }
}

/// Whether `look_up` can be asked for the key of a combination. Where a modifier is unknown, it is
/// not asked.
pub open spec fn can_look_up<F: Fn(&str) -> u32>(look_up: F, keys: Seq<char>) -> bool {
    key_named(keys) matches Some(key) ==> forall|name: &str|
        name@ == key ==> #[trigger] call_requires(look_up, (name,))
}

/// Whether `keysym` is the symbol of the key of a combination: what `look_up` gives for the name
/// of the key, or zero where a modifier is unknown.
pub open spec fn is_symbol<F: Fn(&str) -> u32>(look_up: F, keys: Seq<char>, keysym: u32) -> bool {
    match key_named(keys) {
        Some(key) => exists|name: &str|
            name@ == key && #[trigger] call_ensures(look_up, (name,), keysym),
        None => keysym == 0,
    }
}

/// Whether `keysyms` holds the symbol of the key of each of some bindings.
pub open spec fn are_symbols<F: Fn(&str) -> u32>(
    look_up: F,
    bindings: Seq<BindingView>,
    keysyms: Seq<u32>,
) -> bool {
    keysyms.len() == bindings.len() && forall|i: int|
        0 <= i < bindings.len() ==> is_symbol(look_up, (#[trigger] bindings[i]).keys, keysyms[i])
}

/// The name of the key in a combination, if its modifiers are known.
pub fn key_name(keys: &str) -> (name: Option<String>)
    ensures
        match key_named(keys@) {
            Some(key) => name matches Some(n) && n@ == key,
            None => name is None,
        },
{
    proof {
        text::law_split_join(keys@, '+');
    }
    let list = text::split(keys, text::Separator::Char('+'));
    assert(text::texts(list@).len() == list@.len());
    match read_modifiers(&list) {
        Some(_) => Some(list[list.len() - 1].clone()),
        None => None,
    }
}

/// The symbol of the key of a combination, by `look_up`, which knows the symbols of keys by their
/// names; or zero where a modifier is unknown.
pub fn key_symbol<F: Fn(&str) -> u32>(keys: &str, look_up: &F) -> (keysym: u32)
    requires
        can_look_up(*look_up, keys@),
    ensures
        is_symbol(*look_up, keys@, keysym),
{
    match key_name(keys) {
        Some(name) => {
            let key: &str = name.as_str();
            look_up(key)
        },
        None => 0,
    }
}

/// Puts a key combination together, where `keysym` is the symbol of its key, or zero if there is
/// no such key: the symbol and the bits of the modifiers.
pub fn combine_key(keys: &str, keysym: u32) -> (combo: Option<(u32, u32)>)
    ensures
        combo == combination(keys@, keysym),
{
    proof {
        text::law_split_join(keys@, '+');
    }
    let list = text::split(keys, text::Separator::Char('+'));
    assert(text::texts(list@).len() == list@.len());
    match read_modifiers(&list) {
        Some(mods) => if keysym == 0 {
            None
        } else {
            Some((keysym, mods))
        },
        None => None,
    }
}

/// Reads a key combination: the symbol of its key, by `look_up`, and the bits of the modifiers. It
/// cannot be read if a modifier is unknown or if the key has no symbol.
pub fn parse_key<F: Fn(&str) -> u32>(keys: &str, look_up: &F) -> (combo: Option<(u32, u32)>)
    requires
        can_look_up(*look_up, keys@),
    ensures
        exists|keysym: u32| #[trigger]
            is_symbol(*look_up, keys@, keysym) && combo == combination(keys@, keysym),
{
    combine_key(keys, key_symbol(keys, look_up))
}

/// The symbols of the keys of some bindings.
pub fn key_symbols<F: Fn(&str) -> u32>(bindings: &Vec<Binding>, look_up: &F) -> (keysyms: Vec<u32>)
    requires
        forall|i: int|
            0 <= i < bindings@.len() ==> can_look_up(*look_up, (#[trigger] bindings@[i]).keys@),
    ensures
        are_symbols(*look_up, binding_views(bindings@), keysyms@),
{
    let mut keysyms: Vec<u32> = Vec::new();
    for i in 0..bindings.len()
        invariant
            forall|i: int|
                0 <= i < bindings@.len() ==> can_look_up(*look_up, (#[trigger] bindings@[i]).keys@),
            keysyms@.len() == i,
            forall|k: int|
                0 <= k < i ==> is_symbol(
                    *look_up,
                    (#[trigger] binding_views(bindings@)[k]).keys,
                    keysyms@[k],
                ),
    {
        let keysym: u32 = key_symbol(bindings[i].keys.as_str(), look_up);
        keysyms.push(keysym);
    }
    keysyms
}

/// The definition of a key binding.
pub type BindingDef = (u32, u32, Action);

/// The definitions of a vector.
pub open spec fn def_views(v: Seq<BindingDef>) -> Seq<(u32, u32, ActionView)> {
    v.map_values(|d: BindingDef| (d.0, d.1, d.2@))
}

/// What binding `b` defines, if its key and its action are known.
pub open spec fn definition(b: BindingView, keysym: u32) -> Option<(u32, u32, ActionView)> {
    match (combination(b.keys, keysym), crate::action::action_named(b.action, b.arg)) {
        (Some((sym, mods)), Some(action)) => Some((sym, mods, action)),
        _ => None,
    }
}

/// What a list of bindings defines, in its order, where `keysyms` holds the symbol of the key of
/// each. A binding whose key or action is unknown defines nothing.
pub open spec fn definitions(bindings: Seq<BindingView>, keysyms: Seq<u32>) -> Seq<
    (u32, u32, ActionView),
>
    decreases bindings.len(),
{
    if bindings.len() == 0 {
        Seq::empty()
    } else {
        let n = bindings.len() - 1;
        let before = definitions(bindings.take(n), keysyms);
        match definition(bindings[n], keysyms[n]) {
            Some(def) => before.push(def),
            None => before,
        }
    }
}

/// Reads a list of bindings, where `keysyms` holds the symbol of the key of each, or zero.
pub fn define_bindings(bindings: &Vec<Binding>, keysyms: &Vec<u32>) -> (defs: Vec<BindingDef>)
    requires
        bindings@.len() == keysyms@.len(),
    ensures
        def_views(defs@) == definitions(binding_views(bindings@), keysyms@),
{
    let mut defs: Vec<BindingDef> = Vec::new();
    let ghost all = binding_views(bindings@);
    assert(def_views(defs@) =~= definitions(all.take(0), keysyms@));
    for i in 0..bindings.len()
        invariant
            bindings@.len() == keysyms@.len(),
            all == binding_views(bindings@),
            def_views(defs@) == definitions(all.take(i as int), keysyms@),
    {
        let ghost before = def_views(defs@);
        let b = &bindings[i];
        assert(all.take(i + 1).take(i as int) =~= all.take(i as int));
        assert(all.take(i + 1)[i as int] == bindings@[i as int]@);
        match combine_key(b.keys.as_str(), keysyms[i]) {
            Some((sym, mods)) => {
                match parse_action(b.action.as_str(), b.arg.as_str()) {
                    Some(action) => {
                        defs.push((sym, mods, action));
                        assert(def_views(defs@) =~= before.push((sym, mods, action@)));
                    },
                    None => {},
                }
            },
            None => {},
        }
    }
    assert(all.take(bindings.len() as int) =~= all);
    defs
}

/// Whether one of some names stands for the modifier with this bit.
spec fn names_bit(names: Seq<Seq<char>>, bit: u32) -> bool {
    exists|i: int| 0 <= i < names.len() && modifier_named(#[trigger] names[i]) == Some(bit)
}

/// The bits of the four modifiers, those that are set.
spec fn bits_set(logo: bool, shift: bool, control: bool, alt: bool) -> u32 {
    (if logo {
        64u32
    } else {
        0u32
    }) | (if shift {
        1u32
    } else {
        0u32
    }) | (if control {
        4u32
    } else {
        0u32
    }) | (if alt {
        8u32
    } else {
        0u32
    })
}

/// The bits of all modifiers in a list are those of the modifiers that occur in it, however often.
proof fn lemma_modifiers_set(names: Seq<Seq<char>>)
    ensures
        modifiers(names) is None <==> exists|i: int|
            0 <= i < names.len() && modifier_named(#[trigger] names[i]) is None,
        modifiers(names) matches Some(bits) ==> bits == bits_set(
            names_bit(names, 64),
            names_bit(names, 1),
            names_bit(names, 4),
            names_bit(names, 8),
        ),
    decreases names.len(),
{
    if names.len() == 0 {
        assert(bits_set(false, false, false, false) == 0) by (bit_vector);
    } else {
        let before = names.drop_last();
        let last = names.len() - 1;
        lemma_modifiers_set(before);
        assert(forall|i: int| 0 <= i < last ==> before[i] == names[i]);
        if modifiers(before) is None {
            let i = choose|i: int|
                0 <= i < before.len() && modifier_named(#[trigger] before[i]) is None;
            assert(modifier_named(names[i]) is None);
        }
        if modifiers(names) is Some {
            let bit = modifier_named(names[last])->0;
            let (w, x, y, z) = (
                names_bit(before, 64),
                names_bit(before, 1),
                names_bit(before, 4),
                names_bit(before, 8),
            );
            assert forall|v: u32| names_bit(names, v) == (names_bit(before, v) || bit == v) by {
                if names_bit(before, v) {
                    let i = choose|i: int|
                        0 <= i < before.len() && modifier_named(#[trigger] before[i]) == Some(v);
                    assert(modifier_named(names[i]) == Some(v));
                }
                if names_bit(names, v) {
                    let i = choose|i: int|
                        0 <= i < names.len() && modifier_named(#[trigger] names[i]) == Some(v);
                    if i < last {
                        assert(modifier_named(before[i]) == Some(v));
                    }
                }
            }
            assert(bits_set(w, x, y, z) | 64 == bits_set(true, x, y, z)) by (bit_vector);
            assert(bits_set(w, x, y, z) | 1 == bits_set(w, true, y, z)) by (bit_vector);
            assert(bits_set(w, x, y, z) | 4 == bits_set(w, x, true, z)) by (bit_vector);
            assert(bits_set(w, x, y, z) | 8 == bits_set(w, x, y, true)) by (bit_vector);
        }
    }
}

/// Some names, with their ASCII capital letters made small.
pub open spec fn lowered_names(names: Seq<Seq<char>>) -> Seq<Seq<char>> {
    names.map_values(|name: Seq<char>| text::ascii_lowered(name))
}

/// Neither the order of the modifiers matters, nor the case of their letters, nor how often each
/// is written: lists with the same names have the same bits.
pub proof fn law_modifier_set(a: Seq<Seq<char>>, b: Seq<Seq<char>>)
    requires
        forall|low: Seq<char>| #[trigger]
            lowered_names(a).contains(low) <==> lowered_names(b).contains(low),
    ensures
        modifiers(a) == modifiers(b),
{
    lemma_modifiers_set(a);
    lemma_modifiers_set(b);
    assert forall|i: int| 0 <= i < a.len() implies exists|j: int|
        0 <= j < b.len() && modifier_named(#[trigger] b[j]) == modifier_named(
            #[trigger] a[i],
        ) by {
        let j = lemma_same_name(a, b, i);
        assert(modifier_named(b[j]) == modifier_named(a[i]));
    }
    assert forall|j: int| 0 <= j < b.len() implies exists|i: int|
        0 <= i < a.len() && modifier_named(#[trigger] a[i]) == modifier_named(
            #[trigger] b[j],
        ) by {
        assert forall|low: Seq<char>| #[trigger]
            lowered_names(b).contains(low) implies lowered_names(a).contains(low) by {
            assert(lowered_names(a).contains(low) <==> lowered_names(b).contains(low));
        }
        let i = lemma_same_name(b, a, j);
        assert(modifier_named(a[i]) == modifier_named(b[j]));
    }
    assert forall|bit: u32| names_bit(a, bit) == names_bit(b, bit) by {
        if names_bit(a, bit) {
            let i = choose|i: int|
                0 <= i < a.len() && modifier_named(#[trigger] a[i]) == Some(bit);
            let j = choose|j: int|
                0 <= j < b.len() && modifier_named(#[trigger] b[j]) == modifier_named(a[i]);
            assert(modifier_named(b[j]) == Some(bit));
        }
        if names_bit(b, bit) {
            let j = choose|j: int|
                0 <= j < b.len() && modifier_named(#[trigger] b[j]) == Some(bit);
            let i = choose|i: int|
                0 <= i < a.len() && modifier_named(#[trigger] a[i]) == modifier_named(b[j]);
            assert(modifier_named(a[i]) == Some(bit));
        }
    }
}

/// Where a name of one list stands in another that has all its names.
proof fn lemma_same_name(a: Seq<Seq<char>>, b: Seq<Seq<char>>, i: int) -> (j: int)
    requires
        forall|low: Seq<char>| #[trigger]
            lowered_names(a).contains(low) ==> lowered_names(b).contains(low),
        0 <= i < a.len(),
    ensures
        0 <= j < b.len(),
        text::ascii_lowered(b[j]) == text::ascii_lowered(a[i]),
{
    let low = lowered_names(a)[i];
    assert(lowered_names(a).contains(low));
    let j = choose|j: int| 0 <= j < lowered_names(b).len() && lowered_names(b)[j] == low;
    j
}

/// A key with the logo modifier before it.
proof fn lemma_super(key: Seq<char>)
    requires
        !key.contains('+'),
    ensures
        key_parts("Super"@.push('+') + key) == seq!["Super"@, key],
        modifiers(key_parts("Super"@.push('+') + key).drop_last()) == Some(64u32),
{
    reveal_strlit("Super");
    reveal_strlit("super");
    let names = seq!["Super"@];
    text::lemma_one_part("Super"@, '+');
    text::lemma_last_part("Super"@, key, '+');
    assert(key_parts("Super"@.push('+') + key) =~= seq!["Super"@, key]);
    assert(seq!["Super"@, key].drop_last() =~= names);
    assert(text::ascii_lowered("Super"@) =~= "super"@);
    assert(names.drop_last() =~= Seq::empty());
    assert(modifiers(Seq::empty()) == Some(0u32));
    assert(0u32 | 64 == 64) by (bit_vector);
}

/// A key with the logo and the shift modifiers before it.
proof fn lemma_super_shift(key: Seq<char>)
    requires
        !key.contains('+'),
    ensures
        key_parts(("Super"@.push('+') + "Shift"@).push('+') + key) == seq![
            "Super"@,
            "Shift"@,
            key,
        ],
        modifiers(
            key_parts(("Super"@.push('+') + "Shift"@).push('+') + key).drop_last(),
        ) == Some(65u32),
{
    reveal_strlit("Shift");
    reveal_strlit("shift");
    reveal_strlit("super");
    reveal_strlit("meta");
    reveal_strlit("win");
    reveal_strlit("logo");
    reveal_strlit("mod4");
    let names = seq!["Super"@, "Shift"@];
    lemma_super("Shift"@);
    text::lemma_last_part("Super"@.push('+') + "Shift"@, key, '+');
    assert(key_parts(("Super"@.push('+') + "Shift"@).push('+') + key) =~= seq![
        "Super"@,
        "Shift"@,
        key,
    ]);
    assert(seq!["Super"@, "Shift"@, key].drop_last() =~= names);
    assert(text::ascii_lowered("Shift"@) =~= "shift"@);
    assert("shift"@[1] == 'h' && "super"@[1] == 'u');
    assert(64u32 | 1 == 65) by (bit_vector);
}

/// The key of each default binding.
spec fn default_key(i: int) -> Seq<char> {
    if i == 0 {
        "Return"@
    } else if i == 1 {
        "q"@
    } else if i == 2 {
        "e"@
    } else if i == 3 {
        "j"@
    } else if i == 4 {
        "k"@
    } else if i == 5 {
        "t"@
    } else if i == 6 {
        "g"@
    } else if i == 7 {
        "m"@
    } else if i == 8 {
        "space"@
    } else {
        "r"@
    }
}

/// The parts of the keys of each default binding.
proof fn lemma_default_keys(i: int)
    requires
        0 <= i < 10,
    ensures
        key_parts(default_table()[i].keys).last() == default_key(i),
        modifiers(key_parts(default_table()[i].keys).drop_last()) == Some(
            if i == 2 {
                65u32
            } else {
                64u32
            },
        ),
{
    reveal_strlit("Super");
    reveal_strlit("Shift");
    if i == 0 {
        reveal_strlit("Super+Return");
        reveal_strlit("Return");
        lemma_super("Return"@);
        assert("Super+Return"@ =~= "Super"@.push('+') + "Return"@);
    } else if i == 1 {
        reveal_strlit("Super+q");
        reveal_strlit("q");
        lemma_super("q"@);
        assert("Super+q"@ =~= "Super"@.push('+') + "q"@);
    } else if i == 2 {
        reveal_strlit("Super+Shift+e");
        reveal_strlit("e");
        lemma_super_shift("e"@);
        assert("Super+Shift+e"@ =~= ("Super"@.push('+') + "Shift"@).push('+') + "e"@);
    } else if i == 3 {
        reveal_strlit("Super+j");
        reveal_strlit("j");
        lemma_super("j"@);
        assert("Super+j"@ =~= "Super"@.push('+') + "j"@);
    } else if i == 4 {
        reveal_strlit("Super+k");
        reveal_strlit("k");
        lemma_super("k"@);
        assert("Super+k"@ =~= "Super"@.push('+') + "k"@);
    } else if i == 5 {
        reveal_strlit("Super+t");
        reveal_strlit("t");
        lemma_super("t"@);
        assert("Super+t"@ =~= "Super"@.push('+') + "t"@);
    } else if i == 6 {
        reveal_strlit("Super+g");
        reveal_strlit("g");
        lemma_super("g"@);
        assert("Super+g"@ =~= "Super"@.push('+') + "g"@);
    } else if i == 7 {
        reveal_strlit("Super+m");
        reveal_strlit("m");
        lemma_super("m"@);
        assert("Super+m"@ =~= "Super"@.push('+') + "m"@);
    } else if i == 8 {
        reveal_strlit("Super+space");
        reveal_strlit("space");
        lemma_super("space"@);
        assert("Super+space"@ =~= "Super"@.push('+') + "space"@);
    } else {
        reveal_strlit("Super+r");
        reveal_strlit("r");
        lemma_super("r"@);
        assert("Super+r"@ =~= "Super"@.push('+') + "r"@);
    }
}

/// What each default binding does, and whether it has an argument.
proof fn lemma_default_actions(i: int)
    requires
        0 <= i < 10,
    ensures
        crate::action::action_named(default_table()[i].action, default_table()[i].arg) is Some,
        default_table()[i].arg.len() > 0 <==> default_table()[i].action == "spawn"@
            || default_table()[i].action == "set_layout"@,
{
    reveal_strlit("spawn");
    reveal_strlit("close");
    reveal_strlit("quit");
    reveal_strlit("focus_next");
    reveal_strlit("focus_prev");
    reveal_strlit("set_layout");
    reveal_strlit("toggle_float");
    reveal_strlit("reload");
    reveal_strlit("kitty");
    reveal_strlit("tile");
    reveal_strlit("grid");
    reveal_strlit("monocle");
    reveal_strlit("");
    assert("spawn"@[0] == 's' && "close"@[0] == 'c');
    assert("set_layout"@[0] == 's' && "focus_next"@[0] == 'f' && "focus_prev"@[0] == 'f');
}

/// Keys of default bindings differ, even if the case of their letters is passed over.
proof fn lemma_default_keys_differ(i: int, j: int)
    requires
        0 <= i < 10,
        0 <= j < 10,
        i != j,
    ensures
        text::ascii_lowered(default_key(i)) != text::ascii_lowered(default_key(j)),
{
    reveal_strlit("Return");
    reveal_strlit("q");
    reveal_strlit("e");
    reveal_strlit("j");
    reveal_strlit("k");
    reveal_strlit("t");
    reveal_strlit("g");
    reveal_strlit("m");
    reveal_strlit("space");
    reveal_strlit("r");
    let a = text::ascii_lowered(default_key(i));
    let b = text::ascii_lowered(default_key(j));
    assert(a.len() == default_key(i).len() && b.len() == default_key(j).len());
    assert(a[0] == text::ascii_lower(default_key(i)[0]));
    assert(b[0] == text::ascii_lower(default_key(j)[0]));
}

/// The default bindings all mean something and all hold the logo modifier; just those that run a
/// command or choose a layout have an argument; and no two have the same key, even if the case of
/// its letters is passed over, so that a look-up that tells the keys apart gives no two of them the
/// same combination.
pub proof fn law_default_table(i: int, j: int)
    requires
        0 <= i < 10,
        0 <= j < 10,
    ensures
        default_table().len() == 10,
        crate::action::action_named(default_table()[i].action, default_table()[i].arg) is Some,
        modifiers(key_parts(default_table()[i].keys).drop_last()) matches Some(m) && m & 64 != 0,
        default_table()[i].arg.len() > 0 <==> default_table()[i].action == "spawn"@
            || default_table()[i].action == "set_layout"@,
        i != j ==> text::ascii_lowered(key_parts(default_table()[i].keys).last())
            != text::ascii_lowered(key_parts(default_table()[j].keys).last()),
        i != j ==> key_parts(default_table()[i].keys) != key_parts(default_table()[j].keys),
        forall|a: u32, b: u32|
            #![trigger definition(default_table()[i], a), definition(default_table()[j], b)]
            a != b && a != 0 && b != 0 ==> definition(default_table()[i], a) is Some
                && definition(default_table()[j], b) is Some && combination(
                default_table()[i].keys,
                a,
            ) != combination(default_table()[j].keys, b),
{
    lemma_default_keys(i);
    lemma_default_keys(j);
    lemma_default_actions(i);
    lemma_default_actions(j);
    if i != j {
        lemma_default_keys_differ(i, j);
    }
    assert(64u32 & 64 != 0) by (bit_vector);
    assert(65u32 & 64 != 0) by (bit_vector);
}

/// No more bindings are defined than were written.
pub proof fn law_definitions_bounded(bindings: Seq<BindingView>, keysyms: Seq<u32>)
    ensures
        definitions(bindings, keysyms).len() <= bindings.len(),
    decreases bindings.len(),
{
    if bindings.len() > 0 {
        law_definitions_bounded(bindings.take(bindings.len() - 1), keysyms);
    }
}

/// A copy of some definitions.
pub(crate) fn copy_definitions(defs: &Vec<BindingDef>) -> (copies: Vec<BindingDef>)
    ensures
        def_views(copies@) == def_views(defs@),
{
    let mut copies: Vec<BindingDef> = Vec::new();
    for i in 0..defs.len()
        invariant
            def_views(copies@) == def_views(defs@.take(i as int)),
    {
        let ghost before = copies@;
        let def = &defs[i];
        let action: Action = def.2.clone();
        copies.push((def.0, def.1, action));
        assert(def_views(copies@) =~= def_views(before).push(
            (def.0, def.1, def.2@),
        ));
        assert(def_views(defs@.take(i + 1)) =~= def_views(
            defs@.take(i as int),
        ).push((def.0, def.1, def.2@)));
    }
    assert(defs@.take(defs@.len() as int) =~= defs@);
    copies
}

} // verus!
