//! The settings as the dashboard edits them.

use vstd::prelude::*;

use crate::chat::opt;
use crate::config_editor::{
    cycled, field_fault, field_views, find_text, place_in, takes_number, texts, ConfigField,
    FieldType, FieldView, FloatCheck,
};
use crate::text::{chars_of, same, text_between};

verus! {

/// The settings as they are edited.
pub struct ConfigPane {
    pub fields: Vec<ConfigField>,
    pub selected: usize,
    pub editing: bool,
    pub edit_buffer: String,
    /// Why an edit was not taken.
    pub error: Option<String>,
    /// Whether settings were saved that the server has not read yet.
    pub needs_restart: bool,
}

/// Whether a field takes one of a list.
pub open spec fn is_enum(f: FieldView) -> bool {
    f.kind is Enum
}

/// What a truth value that is written becomes when it is turned: false where it was true,
/// true where it was anything else.
pub open spec fn turned(value: Seq<char>) -> Seq<char> {
    if value == "true"@ {
        "false"@
    } else {
        "true"@
    }
}

/// Turning a truth value twice gives it back.
pub proof fn turning_twice_changes_nothing(b: bool)
    ensures
        turned(turned(crate::config_editor::truth(b))) == crate::config_editor::truth(b),
{
    reveal_strlit("true");
    reveal_strlit("false");
    assert("true"@.len() == 4);
    assert("false"@.len() == 5);
}

/// Whether a character can be typed into a field: digits into one that takes a number, and a
/// point into one that takes a fraction.
pub open spec fn can_be_typed(f: FieldView, c: char) -> bool {
    takes_number(f) ==> '0' <= c <= '9' || (c == '.' && f.kind is Float)
}

/// Gives a field another value.
fn set_value(fields: &mut Vec<ConfigField>, i: usize, value: String)
    requires
        i < old(fields)@.len(),
    ensures
        final(fields)@.len() == old(fields)@.len(),
        final(fields)@[i as int] == (ConfigField { value, ..old(fields)@[i as int] }),
        forall|k: int|
            0 <= k < old(fields)@.len() && k != i ==> final(fields)@[k] == old(fields)@[k],
{
    fields[i].value = value;
}

/// The fields with another value in one of them.
pub open spec fn with_value(f: Seq<FieldView>, i: int, value: Seq<char>) -> Seq<FieldView> {
    f.update(i, FieldView { value, ..f[i] })
}

/// Whether `b` is `a` with another value in the field that is selected.
pub open spec fn value_set(a: ConfigPane, value: Seq<char>, b: ConfigPane) -> bool {
    &&& b == (ConfigPane { fields: b.fields, ..a })
    &&& field_views(b.fields@) == with_value(field_views(a.fields@), a.selected as int, value)
}

impl ConfigPane {
    /// The fields, as texts.
    pub open spec fn shown(&self) -> Seq<FieldView> {
        field_views(self.fields@)
    }

    /// Whether there is a field where the selection is.
    pub open spec fn has_selection(&self) -> bool {
        self.selected < self.fields@.len()
    }

    /// The field that is selected.
    pub open spec fn current(&self) -> FieldView {
        self.shown()[self.selected as int]
    }

    /// Whether this is the pane before anything was done to it: the first field selected,
    /// nothing edited.
    pub open spec fn is_fresh(&self, fields: Vec<ConfigField>) -> bool {
        &&& self.fields == fields
        &&& self.selected == 0
        &&& !self.editing
        &&& self.edit_buffer@.len() == 0
        &&& self.error is None
        &&& !self.needs_restart
    }

    /// The settings when the dashboard starts.
    pub fn new(fields: Vec<ConfigField>) -> (r: ConfigPane)
        ensures
            r.is_fresh(fields),
    {
        ConfigPane {
            fields,
            selected: 0,
            editing: false,
            edit_buffer: String::new(),
            error: None,
            needs_restart: false,
        }
    }

    /// Selects the field before, where there is one.
    pub fn prev(&mut self)
        ensures
            *final(self) == (ConfigPane {
                selected: if old(self).selected > 0 {
                    (old(self).selected - 1) as usize
                } else {
                    0
                },
                ..*old(self)
            }),
    {
        if self.selected > 0 {
            self.selected = self.selected - 1;
        }
    }

    /// Selects the field behind, where there is one.
    pub fn next(&mut self)
        ensures
            *final(self) == (ConfigPane {
                selected: if old(self).selected + 1 < old(self).fields@.len() {
                    (old(self).selected + 1) as usize
                } else {
                    old(self).selected
                },
                ..*old(self)
            }),
    {
        let n: usize = self.fields.len();
        if n >= 1 && self.selected < n - 1 {
            self.selected = self.selected + 1;
        }
    }

    /// Starts to edit the field that is selected, from the value it has.
    pub fn start_edit(&mut self)
        ensures
            edit_started(*old(self), *final(self)),
    {
        if self.selected < self.fields.len() {
            let value = self.fields[self.selected].value.clone();
            self.editing = true;
            self.edit_buffer = value;
            self.error = None;
        }
    }

    /// Stops editing and leaves the field as it was.
    pub fn cancel_edit(&mut self)
        ensures
            edit_ended(*old(self), *final(self)),
    {
        self.editing = false;
        self.edit_buffer = String::new();
        self.error = None;
    }

    /// Gives the field what was typed, where that is valid; else says why it is not, and
    /// editing goes on. What was typed is as a fraction is handed in.
    pub fn confirm_edit(&mut self, check: FloatCheck)
        ensures
            edit_confirmed(*old(self), check, *final(self)),
    {
        if self.selected >= self.fields.len() {
            return;
        }
        let ghost before = self.shown();
        let i = self.selected;
        let was = self.fields[i].value.clone();
        let typed = self.edit_buffer.clone();
        set_value(&mut self.fields, i, typed);
        assert(self.shown() =~= with_value(before, i as int, self.edit_buffer@));
        match self.fields[i].validate(check) {
            Err(e) => {
                set_value(&mut self.fields, i, was);
                assert(self.shown() =~= before);
                assert(self.fields@ =~= old(self).fields@);
                self.error = Some(e);
            },
            Ok(_) => {
                self.editing = false;
                self.edit_buffer = String::new();
                self.error = None;
            },
        }
    }

    /// Turns the truth value that is selected; nothing where another field is.
    pub fn toggle_bool(&mut self)
        ensures
            if old(self).has_selection() && old(self).current().kind is Bool {
                value_set(*old(self), turned(old(self).current().value), *final(self))
            } else {
                *final(self) == *old(self)
            },
    {
        if self.selected >= self.fields.len() {
            return;
        }
        let ghost before = self.shown();
        let i = self.selected;
        match &self.fields[i].field_type {
            FieldType::Bool => {},
            _ => {
                return;
            },
        }
        let value = if same(&self.fields[i].value, "true") {
            "false".to_owned()
        } else {
            "true".to_owned()
        };
        let ghost v = value@;
        set_value(&mut self.fields, i, value);
        assert(self.shown() =~= with_value(before, i as int, v));
    }

    /// Takes the next of the values that the selected field can have, or the one before;
    /// nothing where it does not take one of a list, or has none of it.
    pub fn cycle_enum(&mut self, forward: bool)
        ensures
            enum_cycled(*old(self), forward, *final(self)),
    {
        if self.selected >= self.fields.len() {
            return;
        }
        let ghost before = self.shown();
        let i = self.selected;
        let value = match &self.fields[i].field_type {
            FieldType::Enum(values) => match find_text(values, &self.fields[i].value) {
                Some(k) => {
                    let n: usize = values.len();
                    let next: usize = if forward {
                        if k + 1 == n {
                            0
                        } else {
                            k + 1
                        }
                    } else if k == 0 {
                        n - 1
                    } else {
                        k - 1
                    };
                    proof {
                        lemma_next(k as int, n as int);
                    }
                    assert(texts(values@)[next as int] == values@[next as int]@);
                    values[next].to_owned()
                },
                None => {
                    return;
                },
            },
            _ => {
                return;
            },
        };
        let ghost v = value@;
        set_value(&mut self.fields, i, value);
        assert(self.shown() =~= with_value(before, i as int, v));
    }

    /// Whether any field was changed.
    pub fn has_changes(&self) -> (r: bool)
        ensures
            r == is_changed(self.shown()),
    {
        let mut i: usize = 0;
        while i < self.fields.len()
            invariant
                i <= self.fields@.len(),
                forall|k: int|
                    0 <= k < i ==> (#[trigger] self.shown()[k]).value == self.shown()[k].original,
            decreases self.fields@.len() - i,
        {
            assert(self.shown()[i as int] == self.fields@[i as int]@);
            if self.fields[i].is_modified() {
                return true;
            }
            i = i + 1;
        }
        false
    }

    /// Whether the field that is selected takes one of a list.
    pub fn selected_is_enum(&self) -> (r: bool)
        ensures
            r == (self.has_selection() && is_enum(self.current())),
    {
        if self.selected < self.fields.len() {
            match &self.fields[self.selected].field_type {
                FieldType::Enum(_) => true,
                _ => false,
            }
        } else {
            false
        }
    }

    /// Types a character into the field that is edited, where it can be.
    pub fn type_char(&mut self, c: char)
        ensures
            if old(self).has_selection() && can_be_typed(old(self).current(), c) {
                text_typed(*old(self), old(self).edit_buffer@.push(c), *final(self))
            } else {
                *final(self) == *old(self)
            },
    {
        if self.selected >= self.fields.len() {
            return;
        }
        let field = &self.fields[self.selected];
        let digit = '0' <= c && c <= '9';
        let point = c == '.' && match &field.field_type {
            FieldType::Float { .. } => true,
            _ => false,
        };
        if !field.is_numeric() || digit || point {
            self.edit_buffer.push(c);
            self.error = None;
        }
    }

    /// Takes back the last character typed.
    pub fn backspace(&mut self)
        ensures
            text_typed(*old(self), without_last(old(self).edit_buffer@), *final(self)),
    {
        self.edit_buffer = drop_last_char(&self.edit_buffer);
        self.error = None;
    }

    /// Edits what is selected: takes the edit where there is one, turns a truth value, else
    /// starts an edit.
    pub fn enter(&mut self, check: FloatCheck)
        ensures
            if old(self).editing {
                edit_confirmed(*old(self), check, *final(self))
            } else if old(self).has_selection() && old(self).current().kind is Bool {
                value_set(*old(self), turned(old(self).current().value), *final(self))
            } else {
                edit_started(*old(self), *final(self))
            },
    {
        if self.editing {
            self.confirm_edit(check);
        } else if self.selected < self.fields.len() {
            let truth = match &self.fields[self.selected].field_type {
                FieldType::Bool => true,
                _ => false,
            };
            if truth {
                self.toggle_bool();
            } else {
                self.start_edit();
            }
        }
    }

    /// Notes that the settings were saved: no field counts as changed, and the server is to
    /// be restarted.
    pub fn saved(&mut self)
        ensures
            *final(self) == (ConfigPane {
                fields: final(self).fields,
                needs_restart: true,
                ..*old(self)
            }),
            final(self).shown() == Seq::new(
                old(self).fields@.len(),
                |i: int|
                    FieldView {
                        original: old(self).shown()[i].value,
                        ..old(self).shown()[i]
                    },
            ),
            !is_changed(final(self).shown()),
    {
        let ghost before = self.shown();
        let n: usize = self.fields.len();
        let mut i: usize = 0;
        while i < n
            invariant
                i <= n == self.fields@.len() == before.len(),
                *self == (ConfigPane { fields: self.fields, ..*old(self) }),
                forall|k: int|
                    0 <= k < i ==> (#[trigger] self.fields@[k])@ == (FieldView {
                        original: before[k].value,
                        ..before[k]
                    }),
                forall|k: int| i <= k < n ==> (#[trigger] self.fields@[k])@ == before[k],
            decreases n - i,
        {
            let value = self.fields[i].value.clone();
            self.fields[i].original = value;
            i = i + 1;
        }
        self.needs_restart = true;
        assert(self.shown() =~= Seq::new(
            before.len(),
            |i: int| FieldView { original: before[i].value, ..before[i] },
        ));
    }

    /// Notes why the settings could not be saved.
    pub fn save_failed(&mut self, e: String)
        ensures
            *final(self) == (ConfigPane { error: Some(e), ..*old(self) }),
    {
        self.error = Some(e);
    }

    /// Notes that the server was restarted with these settings.
    pub fn restarted(&mut self, fields: Vec<ConfigField>)
        ensures
            *final(self) == (ConfigPane { fields, needs_restart: false, ..*old(self) }),
    {
        self.needs_restart = false;
        self.fields = fields;
    }

    /// The field that a row shows, below the headers of the sections and the blank lines
    /// between them.
    pub fn row_to_config_index(&self, row: usize) -> (r: Option<usize>)
        ensures
            match r {
                Some(i) => i < self.fields@.len() && field_row(self.shown(), i as int) == row,
                None => forall|i: int|
                    0 <= i < self.fields@.len() ==> #[trigger] field_row(self.shown(), i) != row,
            },
    {
        let ghost f = self.shown();
        let n: usize = self.fields.len();
        let mut current: u128 = 0;
        let mut section: &str = "";
        let mut i: usize = 0;
        while i < self.fields.len()
            invariant
                i <= self.fields@.len() == n,
                f == self.shown(),
                section@ == section_before(f, i as int),
                current == (if i == 0 {
                    0
                } else {
                    field_row(f, i - 1) + 1
                }),
                current <= 3 * i,
                forall|k: int| 0 <= k < i ==> #[trigger] field_row(f, k) != row,
            decreases self.fields@.len() - i,
        {
            let field = &self.fields[i];
            assert(f[i as int] == self.fields@[i as int]@);
            if !same(field.section, section) {
                if !section.is_empty() {
                    current = current + 1;
                }
                current = current + 1;
                section = field.section;
            }
            assert(current == field_row(f, i as int));
            if current == row as u128 {
                return Some(i);
            }
            current = current + 1;
            i = i + 1;
        }
        None
    }
}

/// The section of the field before, none before the first.
pub open spec fn section_before(f: Seq<FieldView>, i: int) -> Seq<char> {
    if i <= 0 {
        ""@
    } else {
        f[i - 1].section
    }
}

/// The row in which a field is shown.
pub open spec fn field_row(f: Seq<FieldView>, i: int) -> int
    decreases i,
{
    let above = if i <= 0 {
        0
    } else {
        field_row(f, i - 1) + 1
    };
    let was = section_before(f, i);
    if f[i].section == was {
        above
    } else if was.len() > 0 {
        above + 2
    } else {
        above + 1
    }
}

/// Later fields are shown further down; so no row shows two.
pub proof fn later_fields_are_further_down(f: Seq<FieldView>, i: int, j: int)
    requires
        0 <= i < j,
    ensures
        field_row(f, i) < field_row(f, j),
    decreases j,
{
    if i < j - 1 {
        later_fields_are_further_down(f, i, j - 1);
    }
}

/// Whether any field was changed.
pub open spec fn is_changed(f: Seq<FieldView>) -> bool {
    exists|i: int| 0 <= i < f.len() && (#[trigger] f[i]).value != f[i].original
}

/// Whether `b` is `a` with an edit begun, where there is a field to edit.
pub open spec fn edit_started(a: ConfigPane, b: ConfigPane) -> bool {
    if a.has_selection() {
        &&& b == (ConfigPane { editing: true, edit_buffer: b.edit_buffer, error: None, ..a })
        &&& b.edit_buffer@ == a.current().value
    } else {
        b == a
    }
}

/// Whether `b` is `a` with no edit.
pub open spec fn edit_ended(a: ConfigPane, b: ConfigPane) -> bool {
    &&& b == (ConfigPane { editing: false, edit_buffer: b.edit_buffer, error: None, ..a })
    &&& b.edit_buffer@.len() == 0
}

/// Whether `b` is `a` with what was typed taken, or with why it was not.
pub open spec fn edit_confirmed(a: ConfigPane, check: FloatCheck, b: ConfigPane) -> bool {
    if a.has_selection() {
        let typed = FieldView { value: a.edit_buffer@, ..a.current() };
        match field_fault(typed, check) {
            Some(fault) => {
                &&& b == (ConfigPane { fields: b.fields, error: b.error, ..a })
                &&& b.fields@ == a.fields@
                &&& opt(b.error) == Some(fault)
            },
            None => {
                &&& b == (ConfigPane {
                    fields: b.fields,
                    editing: false,
                    edit_buffer: b.edit_buffer,
                    error: None,
                    ..a
                })
                &&& b.shown() == with_value(a.shown(), a.selected as int, a.edit_buffer@)
                &&& b.edit_buffer@.len() == 0
            },
        }
    } else {
        b == a
    }
}

/// Whether `b` is `a` with the next value of a list, or the one before, in the field that is
/// selected.
pub open spec fn enum_cycled(a: ConfigPane, forward: bool, b: ConfigPane) -> bool {
    if a.has_selection() && a.current().kind is Enum && place_in(
        a.current().kind->Enum_0,
        a.current().value,
        0,
    ) is Some {
        value_set(a, cycled(a.current().kind->Enum_0, a.current().value, forward), b)
    } else {
        b == a
    }
}

/// Whether `b` is `a` with this text typed.
pub open spec fn text_typed(a: ConfigPane, text: Seq<char>, b: ConfigPane) -> bool {
    &&& b == (ConfigPane { edit_buffer: b.edit_buffer, error: None, ..a })
    &&& b.edit_buffer@ == text
}

/// A text without its last character.
pub open spec fn without_last(s: Seq<char>) -> Seq<char> {
    if s.len() > 0 {
        s.drop_last()
    } else {
        s
    }
}

/// A text without its last character.
pub fn drop_last_char(s: &str) -> (r: String)
    ensures
        r@ == without_last(s@),
{
    let v = chars_of(s);
    if v.len() > 0 {
        let r = text_between(&v, 0, v.len() - 1);
        assert(r@ =~= without_last(s@));
        r
    } else {
        String::new()
    }
}

/// The places behind and before place `k` in a list of `n`, round and round.
proof fn lemma_next(k: int, n: int)
    requires
        0 <= k < n,
    ensures
        (k + 1) % n == (if k + 1 == n {
            0
        } else {
            k + 1
        }),
        (k + n - 1) % n == (if k == 0 {
            n - 1
        } else {
            k - 1
        }),
{
    if k + 1 == n {
        vstd::arithmetic::div_mod::lemma_mod_self_0(n);
    } else {
        vstd::arithmetic::div_mod::lemma_small_mod((k + 1) as nat, n as nat);
    }
    if k == 0 {
        vstd::arithmetic::div_mod::lemma_small_mod((n - 1) as nat, n as nat);
    } else {
        vstd::arithmetic::div_mod::lemma_mod_add_multiples_vanish(k - 1, n);
        vstd::arithmetic::div_mod::lemma_small_mod((k - 1) as nat, n as nat);
        assert(k + n - 1 == (k - 1) + n);
    }
}

/// An edit that was begun and given up leaves every field as it was.
pub proof fn giving_up_an_edit_changes_no_field(a: ConfigPane, b: ConfigPane, c: ConfigPane)
    requires
        edit_started(a, b),
        edit_ended(b, c),
    ensures
        c.fields == a.fields,
        c.selected == a.selected,
{
}

/// An edit that was begun and taken at once leaves every value as it was, where it was valid.
pub proof fn an_edit_without_change_changes_nothing(
    a: ConfigPane,
    check: FloatCheck,
    b: ConfigPane,
    c: ConfigPane,
)
    requires
        a.has_selection(),
        field_fault(a.current(), check) is None,
        edit_started(a, b),
        edit_confirmed(b, check, c),
    ensures
        c.shown() == a.shown(),
        !c.editing,
{
    let typed = FieldView { value: b.edit_buffer@, ..b.current() };
    assert(typed == a.current());
    assert(c.shown() =~= a.shown());
}

/// What was typed into a setting is its value once it is taken; nothing is taken that is not
/// valid, and no other setting changes either way.
pub proof fn typed_values_are_taken(a: ConfigPane, check: FloatCheck, b: ConfigPane, i: int)
    requires
        edit_confirmed(a, check, b),
        a.has_selection(),
        0 <= i < a.fields@.len(),
    ensures
        b.shown().len() == a.shown().len(),
        field_fault((FieldView { value: a.edit_buffer@, ..a.current() }), check) is None
            ==> b.current().value == a.edit_buffer@ && !b.editing && b.error is None,
        field_fault((FieldView { value: a.edit_buffer@, ..a.current() }), check) is Some
            ==> b.current().value == a.current().value && b.editing == a.editing && b.error is Some,
        i != a.selected ==> b.shown()[i] == a.shown()[i],
        b.shown()[i].original == a.shown()[i].original,
        b.shown()[i].key == a.shown()[i].key,
{
}

/// Turning a truth value gives the other one.
pub proof fn truth_values_are_turned()
    ensures
        turned("true"@) == "false"@,
        turned("false"@) == "true"@,
{
    reveal_strlit("true");
    reveal_strlit("false");
    assert("true"@.len() != "false"@.len());
}

/// Settings count as changed exactly where one has another value than it began with.
pub proof fn changed_settings_are_noticed(f: Seq<FieldView>, i: int, value: Seq<char>)
    requires
        0 <= i < f.len(),
    ensures
        value != f[i].original ==> is_changed(with_value(f, i, value)),
        !is_changed(f) ==> f[i].value == f[i].original,
        !is_changed(f) && value == f[i].original ==> !is_changed(with_value(f, i, value)),
{
    let g = with_value(f, i, value);
    assert(g[i].value == value);
    if !is_changed(f) {
        assert(!(f[i].value != f[i].original));
        if value == f[i].original {
            assert forall|k: int| 0 <= k < g.len() implies (#[trigger] g[k]).value
                == g[k].original by {
                assert(!(f[k].value != f[k].original));
            }
        }
    }
}

/// Into a number only digits can be typed, a point only into a fraction, and into a text
/// anything.
pub proof fn numbers_are_typed_in_digits(f: FieldView, c: char)
    ensures
        '0' <= c <= '9' ==> can_be_typed(f, c),
        f.key == "port"@ && !('0' <= c <= '9') && !(f.kind is Float) ==> !can_be_typed(f, c),
        f.kind is Float ==> (can_be_typed(f, c) <==> '0' <= c <= '9' || c == '.'),
        !takes_number(f) ==> can_be_typed(f, c),
{
}

} // verus!
