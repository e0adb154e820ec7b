//! The widgets of a page.
//!
//! A `Page` holds every widget that forms have created, and an `El` is a
//! handle to one of them. Handles are plain copies of each other: whoever
//! holds one sees the same widget. The widgets are plain data (tag, classes,
//! attributes, text, children, what the user entered), so that what a form
//! does to them can be stated and checked.

use vstd::prelude::*;
use vstd::string::*;
use crate::style::CSS_CLASS_HIDDEN;

verus! {

/// A handle to a widget of a `Page`.
#[derive(Clone, Copy, PartialEq, Eq, Structural, Debug)]
pub struct El {
    /// The widget's position on its page, in order of creation.
    pub index: usize,
}

/// A widget.
#[derive(Clone, Debug, PartialEq, Eq)]
pub struct Element {
    /// The kind of element, such as `input` or `span`.
    pub tag: String,
    /// The style classes, each once, in the order they were added.
    pub classes: Vec<String>,
    /// The attributes, each name once, in the order they were first set.
    pub attrs: Vec<(String, String)>,
    /// The text content.
    pub text: String,
    /// The widgets placed inside this one.
    pub children: Vec<El>,
    /// The names of the events that a handler listens to.
    pub events: Vec<String>,
    /// What the user entered or chose, for a text entry or a selector.
    pub value: String,
    /// Whether the user ticked the box, for a checkbox.
    pub checked: bool,
}

/// The mathematical content of an `Element`.
pub struct ElementView {
    pub tag: Seq<char>,
    pub classes: Seq<Seq<char>>,
    pub attrs: Seq<(Seq<char>, Seq<char>)>,
    pub text: Seq<char>,
    pub children: Seq<El>,
    pub events: Seq<Seq<char>>,
    pub value: Seq<char>,
    pub checked: bool,
}

/// The contents of a list of texts, one by one.
pub open spec fn texts_of(texts: Seq<String>) -> Seq<Seq<char>> {
    Seq::new(texts.len(), |i: int| texts[i]@)
}

/// The contents of a list of pairs of texts, one by one.
pub open spec fn pairs_of(pairs: Seq<(String, String)>) -> Seq<(Seq<char>, Seq<char>)> {
    Seq::new(pairs.len(), |i: int| (pairs[i].0@, pairs[i].1@))
}

impl View for Element {
    type V = ElementView;

    open spec fn view(&self) -> ElementView {
        ElementView {
            tag: self.tag@,
            classes: texts_of(self.classes@),
            attrs: pairs_of(self.attrs@),
            text: self.text@,
            children: self.children@,
            events: texts_of(self.events@),
            value: self.value@,
            checked: self.checked,
        }
    }
}

/// `classes` with `key` in it: added at the end unless it is there already.
pub open spec fn with_class(classes: Seq<Seq<char>>, key: Seq<char>) -> Seq<Seq<char>> {
    if classes.contains(key) {
        classes
    } else {
        classes.push(key)
    }
}

/// `classes` with every occurrence of `key` taken out.
pub open spec fn without_class(classes: Seq<Seq<char>>, key: Seq<char>) -> Seq<Seq<char>>
    decreases classes.len(),
{
    if classes.len() == 0 {
        classes
    } else if classes.last() == key {
        without_class(classes.drop_last(), key)
    } else {
        without_class(classes.drop_last(), key).push(classes.last())
    }
}

/// The position of the first attribute named `key` among the first `n`, or
/// `n` if there is none.
pub open spec fn attr_position(attrs: Seq<(Seq<char>, Seq<char>)>, key: Seq<char>, n: nat) -> nat
    decreases n,
{
    if n == 0 || n > attrs.len() {
        0
    } else {
        let before = attr_position(attrs, key, (n - 1) as nat);
        if before < n - 1 {
            before
        } else if attrs[n - 1].0 == key {
            (n - 1) as nat
        } else {
            n
        }
    }
}

/// `attrs` with `key` set to `value`: in place where the name is there
/// already, else added at the end.
pub open spec fn with_attr(attrs: Seq<(Seq<char>, Seq<char>)>, key: Seq<char>, value: Seq<char>) -> Seq<
    (Seq<char>, Seq<char>),
> {
    let at = attr_position(attrs, key, attrs.len());
    if at < attrs.len() {
        attrs.update(at as int, (key, value))
    } else {
        attrs.push((key, value))
    }
}

/// The element with the first `n` of `keys` added to its classes.
pub open spec fn with_classes(element: ElementView, keys: Seq<&str>, n: nat) -> ElementView
    decreases n,
{
    if n == 0 || n > keys.len() {
        element
    } else {
        with_classes(element, keys, (n - 1) as nat).add_class(keys[n - 1]@)
    }
}

/// The element with the first `n` of `keys` added to or removed from its
/// classes, in turn.
pub open spec fn with_modified_classes(element: ElementView, keys: Seq<(&str, bool)>, n: nat) -> ElementView
    decreases n,
{
    if n == 0 || n > keys.len() {
        element
    } else {
        with_modified_classes(element, keys, (n - 1) as nat).modify_class(keys[n - 1].0@, keys[n - 1].1)
    }
}

impl ElementView {
    /// A fresh element: nothing set, nothing entered.
    pub open spec fn blank(tag: Seq<char>) -> ElementView {
        ElementView {
            tag,
            classes: Seq::empty(),
            attrs: Seq::empty(),
            text: Seq::empty(),
            children: Seq::empty(),
            events: Seq::empty(),
            value: Seq::empty(),
            checked: false,
        }
    }

    pub open spec fn add_class(self, key: Seq<char>) -> ElementView {
        ElementView { classes: with_class(self.classes, key), ..self }
    }

    pub open spec fn remove_class(self, key: Seq<char>) -> ElementView {
        ElementView { classes: without_class(self.classes, key), ..self }
    }

    /// The element with the class there or not, as `present` says.
    pub open spec fn modify_class(self, key: Seq<char>, present: bool) -> ElementView {
        if present {
            self.add_class(key)
        } else {
            self.remove_class(key)
        }
    }

    pub open spec fn set_attr(self, key: Seq<char>, value: Seq<char>) -> ElementView {
        ElementView { attrs: with_attr(self.attrs, key, value), ..self }
    }

    pub open spec fn set_text(self, text: Seq<char>) -> ElementView {
        ElementView { text, ..self }
    }

    pub open spec fn push_child(self, child: El) -> ElementView {
        ElementView { children: self.children.push(child), ..self }
    }

    pub open spec fn extend_children(self, children: Seq<El>) -> ElementView {
        ElementView { children: self.children + children, ..self }
    }

    pub open spec fn listen(self, event: Seq<char>) -> ElementView {
        ElementView { events: self.events.push(event), ..self }
    }

    pub open spec fn set_value(self, value: Seq<char>) -> ElementView {
        ElementView { value, ..self }
    }

    pub open spec fn set_checked(self, checked: bool) -> ElementView {
        ElementView { checked, ..self }
    }

    /// Whether the element is marked as hidden.
    pub open spec fn hidden(self) -> bool {
        self.classes.contains(CSS_CLASS_HIDDEN@)
    }
}

/// Once an attribute named `key` is found, looking further finds the same.
pub proof fn lemma_attr_position_found(attrs: Seq<(Seq<char>, Seq<char>)>, key: Seq<char>, k: nat, n: nat)
    requires
        k <= n <= attrs.len(),
        attr_position(attrs, key, k) < k,
    ensures
        attr_position(attrs, key, n) == attr_position(attrs, key, k),
    decreases n,
{
    if k < n {
        lemma_attr_position_found(attrs, key, k, (n - 1) as nat);
    }
}

/// Whether two texts are the same.
pub fn same_text(a: &str, b: &str) -> (r: bool)
    ensures
        r == (a@ == b@),
{
    a.to_owned() == b.to_owned()
}

/// The position of `key` in `texts`, or their number if it is not there.
fn position_of(texts: &Vec<String>, key: &String) -> (r: usize)
    ensures
        r <= texts@.len(),
        r < texts@.len() ==> texts@[r as int]@ == key@,
        r == texts@.len() <==> !texts_of(texts@).contains(key@),
{
    let mut i: usize = 0;
    while i < texts.len()
        invariant
            i <= texts@.len(),
            forall|j: int| 0 <= j < i ==> texts@[j]@ != key@,
        decreases texts@.len() - i,
    {
        if texts[i] == *key {
            assert(texts_of(texts@)[i as int] == key@);
            return i;
        }
        i = i + 1;
    }
    i
}

/// The texts of `texts` without those equal to `key`.
fn without(texts: &Vec<String>, key: &String) -> (r: Vec<String>)
    ensures
        texts_of(r@) == without_class(texts_of(texts@), key@),
{
    let mut out: Vec<String> = Vec::new();
    let mut i: usize = 0;
    assert(texts_of(texts@).subrange(0, 0) =~= Seq::<Seq<char>>::empty());
    assert(texts_of(out@) =~= Seq::<Seq<char>>::empty());
    while i < texts.len()
        invariant
            i <= texts@.len(),
            texts_of(out@) == without_class(texts_of(texts@).subrange(0, i as int), key@),
        decreases texts@.len() - i,
    {
        let ghost before = texts_of(texts@).subrange(0, i as int);
        let ghost after = texts_of(texts@).subrange(0, i + 1);
        assert(after.drop_last() =~= before);
        assert(after.last() == texts@[i as int]@);
        if !(texts[i] == *key) {
            let ghost kept = texts_of(out@);
            out.push(texts[i].clone());
            assert(texts_of(out@) =~= kept.push(texts@[i as int]@));
        }
        i = i + 1;
    }
    assert(texts_of(texts@).subrange(0, i as int) =~= texts_of(texts@));
    out
}

/// `page` with the widget at position `at` replaced. A position that is not on
/// the page changes nothing.
pub open spec fn replaced(page: Seq<ElementView>, at: int, element: ElementView) -> Seq<ElementView> {
    if 0 <= at < page.len() {
        page.update(at, element)
    } else {
        page
    }
}

/// `page` with the hidden mark set (`hidden`) or cleared on the first `n` of
/// `els`, in order.
pub open spec fn with_hidden(page: Seq<ElementView>, els: Seq<El>, hidden: bool, n: nat) -> Seq<
    ElementView,
>
    decreases n,
{
    if n == 0 || n > els.len() {
        page
    } else {
        let before = with_hidden(page, els, hidden, (n - 1) as nat);
        let at = els[n - 1].index as int;
        replaced(before, at, before[at].modify_class(CSS_CLASS_HIDDEN@, hidden))
    }
}

/// A class that was taken out is not there.
pub proof fn lemma_without_class(classes: Seq<Seq<char>>, key: Seq<char>)
    ensures
        !without_class(classes, key).contains(key),
    decreases classes.len(),
{
    if classes.len() > 0 {
        lemma_without_class(classes.drop_last(), key);
        let rest = without_class(classes.drop_last(), key);
        if classes.last() != key {
            assert forall|i: int| 0 <= i < rest.push(classes.last()).len() implies rest.push(
                classes.last(),
            )[i] != key by {
                if i < rest.len() {
                    assert(rest.contains(rest[i]));
                }
            }
        }
    }
}

/// The widgets of a page, in order of creation.
#[derive(Clone, Debug, PartialEq, Eq)]
pub struct Page {
    elements: Vec<Element>,
}

impl View for Page {
    type V = Seq<ElementView>;

    closed spec fn view(&self) -> Seq<ElementView> {
        Seq::new(self.elements@.len(), |i: int| self.elements@[i]@)
    }
}

impl Page {
    /// A page without widgets.
    pub fn new() -> (r: Page)
        ensures
            r@ == Seq::<ElementView>::empty(),
    {
        let r = Page { elements: Vec::new() };
        assert(r@ =~= Seq::<ElementView>::empty());
        r
    }

    /// A page never holds more widgets than a machine can count.
    pub proof fn lemma_len(&self)
        ensures
            self@.len() <= usize::MAX,
    {
        assert(self.elements@.len() == self.elements.len());
    }

    /// The number of widgets.
    pub fn len(&self) -> (r: usize)
        ensures
            r == self@.len(),
    {
        self.elements.len()
    }

    /// The widget behind a handle.
    pub fn get(&self, el: El) -> (r: &Element)
        requires
            el.index < self@.len(),
        ensures
            r@ == self@[el.index as int],
    {
        &self.elements[el.index]
    }

    /// Creates a new element.
    pub fn el(&mut self, tag: &str) -> (r: El)
        ensures
            r.index == old(self)@.len(),
            final(self)@ == old(self)@.push(ElementView::blank(tag@)),
    {
        let index = self.elements.len();
        let element = Element {
            tag: tag.to_owned(),
            classes: Vec::new(),
            attrs: Vec::new(),
            text: String::new(),
            children: Vec::new(),
            events: Vec::new(),
            value: String::new(),
            checked: false,
        };
        assert(element@ =~= ElementView::blank(tag@)) by {
            assert(element@.classes =~= Seq::<Seq<char>>::empty());
            assert(element@.attrs =~= Seq::<(Seq<char>, Seq<char>)>::empty());
            assert(element@.events =~= Seq::<Seq<char>>::empty());
        }
        self.elements.push(element);
        assert(self@ =~= old(self)@.push(ElementView::blank(tag@)));
        El { index }
    }

    /// Adds each of the classes, unless the element has it already.
    pub fn classes(&mut self, el: El, keys: &[&str])
        requires
            el.index < old(self)@.len(),
        ensures
            final(self)@ == old(self)@.update(
                el.index as int,
                with_classes(old(self)@[el.index as int], keys@, keys@.len()),
            ),
    {
        let mut i: usize = 0;
        assert(self@ =~= old(self)@.update(el.index as int, old(self)@[el.index as int]));
        while i < keys.len()
            invariant
                i <= keys@.len(),
                el.index < old(self)@.len(),
                self.elements@.len() == old(self)@.len(),
                self@ == old(self)@.update(
                    el.index as int,
                    with_classes(old(self)@[el.index as int], keys@, i as nat),
                ),
            decreases keys@.len() - i,
        {
            let ghost before = self@;
            let key = keys[i].to_owned();
            if position_of(&self.elements[el.index].classes, &key) == self.elements[el.index].classes.len() {
                let ghost classes = texts_of(self.elements[el.index as int].classes@);
                self.elements[el.index].classes.push(key);
                assert(texts_of(self.elements[el.index as int].classes@) =~= classes.push(key@));
            }
            assert(self@ =~= before.update(el.index as int, before[el.index as int].add_class(keys@[i as int]@)));
            i = i + 1;
        }
    }

    /// Adds or removes each class, as the flag beside it says.
    pub fn modify_classes(&mut self, el: El, keys: &[(&str, bool)])
        requires
            el.index < old(self)@.len(),
        ensures
            final(self)@ == old(self)@.update(
                el.index as int,
                with_modified_classes(old(self)@[el.index as int], keys@, keys@.len()),
            ),
    {
        let mut i: usize = 0;
        assert(self@ =~= old(self)@.update(el.index as int, old(self)@[el.index as int]));
        while i < keys.len()
            invariant
                i <= keys@.len(),
                el.index < old(self)@.len(),
                self.elements@.len() == old(self)@.len(),
                self@ == old(self)@.update(
                    el.index as int,
                    with_modified_classes(old(self)@[el.index as int], keys@, i as nat),
                ),
            decreases keys@.len() - i,
        {
            let ghost before = self@;
            let key = keys[i].0.to_owned();
            if keys[i].1 {
                if position_of(&self.elements[el.index].classes, &key)
                    == self.elements[el.index].classes.len() {
                    let ghost classes = texts_of(self.elements[el.index as int].classes@);
                    self.elements[el.index].classes.push(key);
                    assert(texts_of(self.elements[el.index as int].classes@) =~= classes.push(key@));
                }
            } else {
                let kept = without(&self.elements[el.index].classes, &key);
                self.elements[el.index].classes = kept;
            }
            assert(self@ =~= before.update(
                el.index as int,
                before[el.index as int].modify_class(keys@[i as int].0@, keys@[i as int].1),
            ));
            i = i + 1;
        }
    }

    /// Sets an attribute.
    pub fn attr(&mut self, el: El, key: &str, value: &str)
        requires
            el.index < old(self)@.len(),
        ensures
            final(self)@ == old(self)@.update(
                el.index as int,
                old(self)@[el.index as int].set_attr(key@, value@),
            ),
    {
        let name = key.to_owned();
        let ghost attrs = old(self)@[el.index as int].attrs;
        let n = self.elements[el.index].attrs.len();
        let mut i: usize = 0;
        while i < n
            invariant
                i <= n,
                el.index < self.elements@.len(),
                self@ == old(self)@,
                n == attrs.len(),
                attrs == pairs_of(self.elements[el.index as int].attrs@),
                name@ == key@,
                attr_position(attrs, key@, i as nat) == i,
            decreases n - i,
        {
            if self.elements[el.index].attrs[i].0 == name {
                proof {
                    lemma_attr_position_found(attrs, key@, (i + 1) as nat, n as nat);
                }
                self.elements[el.index].attrs[i].1 = value.to_owned();
                assert(pairs_of(self.elements[el.index as int].attrs@) =~= attrs.update(
                    i as int,
                    (key@, value@),
                ));
                assert(self@ =~= old(self)@.update(
                    el.index as int,
                    old(self)@[el.index as int].set_attr(key@, value@),
                ));
                return ;
            }
            i = i + 1;
        }
        self.elements[el.index].attrs.push((name, value.to_owned()));
        assert(pairs_of(self.elements[el.index as int].attrs@) =~= attrs.push((key@, value@)));
        assert(self@ =~= old(self)@.update(
            el.index as int,
            old(self)@[el.index as int].set_attr(key@, value@),
        ));
    }

    /// Notes that a handler listens to the event on this element.
    pub fn on(&mut self, el: El, event: &str)
        requires
            el.index < old(self)@.len(),
        ensures
            final(self)@ == old(self)@.update(el.index as int, old(self)@[el.index as int].listen(event@)),
    {
        let ghost events = old(self)@[el.index as int].events;
        self.elements[el.index].events.push(event.to_owned());
        assert(texts_of(self.elements[el.index as int].events@) =~= events.push(event@));
        assert(self@ =~= old(self)@.update(el.index as int, old(self)@[el.index as int].listen(event@)));
    }

    /// Adds a single element to the end of the children.
    pub fn push(&mut self, el: El, add: El)
        requires
            el.index < old(self)@.len(),
        ensures
            final(self)@ == old(self)@.update(el.index as int, old(self)@[el.index as int].push_child(add)),
    {
        self.elements[el.index].children.push(add);
        assert(self@ =~= old(self)@.update(el.index as int, old(self)@[el.index as int].push_child(add)));
    }

    /// Adds multiple elements to the end of the children.
    pub fn extend(&mut self, el: El, add: &Vec<El>)
        requires
            el.index < old(self)@.len(),
        ensures
            final(self)@ == old(self)@.update(
                el.index as int,
                old(self)@[el.index as int].extend_children(add@),
            ),
    {
        let mut i: usize = 0;
        assert(self@ =~= old(self)@.update(
            el.index as int,
            old(self)@[el.index as int].extend_children(add@.subrange(0, 0)),
        ));
        while i < add.len()
            invariant
                i <= add@.len(),
                el.index < old(self)@.len(),
                self@ == old(self)@.update(
                    el.index as int,
                    old(self)@[el.index as int].extend_children(add@.subrange(0, i as int)),
                ),
            decreases add@.len() - i,
        {
            let ghost before = self@[el.index as int].children;
            self.push(el, add[i]);
            assert(before.push(add@[i as int]) =~= old(self)@[el.index as int].children + add@.subrange(
                0,
                i + 1,
            ));
            i = i + 1;
        }
        assert(add@.subrange(0, i as int) =~= add@);
    }

    /// What the user entered or chose in the widget.
    pub fn value(&self, el: El) -> (r: &str)
        requires
            el.index < self@.len(),
        ensures
            r@ == self@[el.index as int].value,
    {
        self.elements[el.index].value.as_str()
    }

    /// Whether the user ticked the box.
    pub fn checked(&self, el: El) -> (r: bool)
        requires
            el.index < self@.len(),
        ensures
            r == self@[el.index as int].checked,
    {
        self.elements[el.index].checked
    }

    /// The user enters or chooses `value` in the widget.
    pub fn set_value(&mut self, el: El, value: &str)
        requires
            el.index < old(self)@.len(),
        ensures
            final(self)@ == old(self)@.update(el.index as int, old(self)@[el.index as int].set_value(value@)),
    {
        self.elements[el.index].value = value.to_owned();
        assert(self@ =~= old(self)@.update(el.index as int, old(self)@[el.index as int].set_value(value@)));
    }

    /// The user ticks or clears the box.
    pub fn set_checked(&mut self, el: El, checked: bool)
        requires
            el.index < old(self)@.len(),
        ensures
            final(self)@ == old(self)@.update(
                el.index as int,
                old(self)@[el.index as int].set_checked(checked),
            ),
    {
        self.elements[el.index].checked = checked;
        assert(self@ =~= old(self)@.update(
            el.index as int,
            old(self)@[el.index as int].set_checked(checked),
        ));
    }

    /// Whether the element is marked as hidden.
    pub fn hidden(&self, el: El) -> (r: bool)
        requires
            el.index < self@.len(),
        ensures
            r == self@[el.index as int].hidden(),
    {
        let key = CSS_CLASS_HIDDEN.to_owned();
        position_of(&self.elements[el.index].classes, &key) < self.elements[el.index].classes.len()
    }

    /// Marks the widgets of `els` from position `from` on as hidden, or as
    /// shown, in order.
    pub fn set_hidden(&mut self, els: &Vec<El>, from: usize, hidden: bool)
        requires
            from <= els@.len(),
            forall|i: int| from <= i < els@.len() ==> (#[trigger] els@[i]).index < old(self)@.len(),
        ensures
            final(self)@ == with_hidden(
                old(self)@,
                els@.subrange(from as int, els@.len() as int),
                hidden,
                (els@.len() - from) as nat,
            ),
            final(self)@.len() == old(self)@.len(),
    {
        let ghost rest = els@.subrange(from as int, els@.len() as int);
        let mut i: usize = from;
        while i < els.len()
            invariant
                from <= i <= els@.len(),
                rest == els@.subrange(from as int, els@.len() as int),
                forall|k: int| from <= k < els@.len() ==> (#[trigger] els@[k]).index < old(self)@.len(),
                self@.len() == old(self)@.len(),
                self@ == with_hidden(old(self)@, rest, hidden, (i - from) as nat),
            decreases els@.len() - i,
        {
            assert(rest[i - from] == els@[i as int]);
            self.modify_classes(els[i], &[(CSS_CLASS_HIDDEN, hidden)]);
            proof {
                reveal_with_fuel(with_modified_classes, 2);
            }
            i = i + 1;
        }
    }

    /// Sets the text content.
    pub fn text(&mut self, el: El, text: &str)
        requires
            el.index < old(self)@.len(),
        ensures
            final(self)@ == old(self)@.update(el.index as int, old(self)@[el.index as int].set_text(text@)),
    {
        self.elements[el.index].text = text.to_owned();
        assert(self@ =~= old(self)@.update(el.index as int, old(self)@[el.index as int].set_text(text@)));
    }
}

} // verus!
