use vstd::prelude::*;

verus! {

/// An opaque identity: a business, an administrator, a multisig owner, a
/// token or a contract. Two addresses are the same principal exactly when
/// their texts are equal.
#[derive(Debug)]
pub struct Address {
    text: String,
}

impl View for Address {
    type V = Seq<char>;

    closed spec fn view(&self) -> Seq<char> {
        self.text@
    }
}

impl Clone for Address {
    fn clone(&self) -> (r: Self)
        ensures
            r == *self,
    {
        Address { text: self.text.clone() }
    }
}

impl Address {
    /// The principal that `text` names.
    pub fn new(text: String) -> (r: Self)
        ensures
            r@ == text@,
    {
        Address { text }
    }

    /// The principal that `text` names.
    pub fn from_str(text: &str) -> (r: Self)
        ensures
            r@ == text@,
    {
        Address { text: text.to_owned() }
    }

    /// The text that names this principal.
    pub fn as_str(&self) -> (r: &str)
        ensures
            r@ == self@,
    {
        self.text.as_str()
    }

    /// Whether both name the same principal.
    pub fn same(&self, other: &Address) -> (r: bool)
        ensures
            r == (self@ == other@),
    {
        self.text == other.text
    }
}

/// The principal that an address names, where there is an address.
pub open spec fn name_of(a: Option<Address>) -> Option<Seq<char>> {
    match a {
        Some(a) => Some(a@),
        None => None,
    }
}

/// The principals that a list of addresses names, in the list's order.
pub open spec fn principals(list: Seq<Address>) -> Seq<Seq<char>> {
    list.map_values(|a: Address| a@)
}

/// The position of `who` in `list`, if it is there.
pub fn position_of(list: &Vec<Address>, who: &Address) -> (r: Option<usize>)
    ensures
        match r {
            Some(i) => i < list@.len() && list@[i as int]@ == who@ && forall|j: int|
                0 <= j < i ==> list@[j]@ != who@,
            None => !principals(list@).contains(who@),
        },
{
    let mut i: usize = 0;
    while i < list.len()
        invariant
            i <= list@.len(),
            forall|j: int| 0 <= j < i ==> list@[j]@ != who@,
        decreases list@.len() - i,
    {
        if list[i].same(who) {
            return Some(i);
        }
        i += 1;
    }
    assert forall|j: int| 0 <= j < principals(list@).len() implies principals(list@)[j] != who@ by {
        assert(principals(list@)[j] == list@[j]@);
    }
    None
}

/// Whether `who` is among `list`.
pub fn contains_address(list: &Vec<Address>, who: &Address) -> (r: bool)
    ensures
        r == principals(list@).contains(who@),
{
    match position_of(list, who) {
        Some(i) => {
            assert(principals(list@)[i as int] == who@);
            true
        },
        None => false,
    }
}

/// Whether no principal occurs twice in `list`.
pub fn all_distinct(list: &Vec<Address>) -> (r: bool)
    ensures
        r == principals(list@).no_duplicates(),
{
    let mut i: usize = 0;
    while i < list.len()
        invariant
            i <= list@.len(),
            forall|a: int, b: int| 0 <= a < b < i ==> list@[a]@ != list@[b]@,
        decreases list@.len() - i,
    {
        let mut j: usize = 0;
        while j < i
            invariant
                j <= i < list@.len(),
                forall|a: int| 0 <= a < j ==> list@[a]@ != list@[i as int]@,
            decreases i - j,
        {
            if list[j].same(&list[i]) {
                assert(principals(list@)[j as int] == principals(list@)[i as int]);
                return false;
            }
            j += 1;
        }
        i += 1;
    }
    assert forall|a: int, b: int|
        0 <= a < principals(list@).len() && 0 <= b < principals(list@).len() && a != b implies principals(
        list@,
    )[a] != principals(list@)[b] by {
        if a < b {
            assert(list@[a]@ != list@[b]@);
        } else {
            assert(list@[b]@ != list@[a]@);
        }
    }
    true
}

/// A copy of `list`.
pub fn clone_addresses(list: &Vec<Address>) -> (r: Vec<Address>)
    ensures
        r@ == list@,
{
    let r = list.clone();
    assert(r@ =~= list@);
    r
}

/// A list without repetition stays so when something new is added.
pub proof fn lemma_push_distinct(list: Seq<Seq<char>>, who: Seq<char>)
    requires
        list.no_duplicates(),
        !list.contains(who),
    ensures
        list.push(who).no_duplicates(),
{
    let l2 = list.push(who);
    assert forall|i: int, j: int| 0 <= i < l2.len() && 0 <= j < l2.len() && i != j implies l2[i]
        != l2[j] by {
        if i < list.len() && j < list.len() {
        } else if i < list.len() {
            assert(list[i] != who);
        } else {
            assert(list[j] != who);
        }
    }
}

/// A list without repetition stays so when an item is taken out, and no
/// longer holds that item.
pub proof fn lemma_remove_distinct(list: Seq<Seq<char>>, i: int)
    requires
        list.no_duplicates(),
        0 <= i < list.len(),
    ensures
        list.remove(i).no_duplicates(),
        !list.remove(i).contains(list[i]),
        forall|x: Seq<char>| x != list[i] ==> (list.remove(i).contains(x) <==> list.contains(x)),
{
    let l2 = list.remove(i);
    assert forall|a: int, b: int| 0 <= a < l2.len() && 0 <= b < l2.len() && a != b implies l2[a]
        != l2[b] by {
        let a2 = if a < i { a } else { a + 1 };
        let b2 = if b < i { b } else { b + 1 };
        assert(l2[a] == list[a2] && l2[b] == list[b2]);
    }
    assert forall|a: int| 0 <= a < l2.len() implies l2[a] != list[i] by {
        let a2 = if a < i { a } else { a + 1 };
        assert(l2[a] == list[a2]);
    }
    assert forall|x: Seq<char>| x != list[i] implies (l2.contains(x) <==> list.contains(x)) by {
        if l2.contains(x) {
            let a = choose|a: int| 0 <= a < l2.len() && l2[a] == x;
            let a2 = if a < i { a } else { a + 1 };
            assert(list[a2] == x);
        }
        if list.contains(x) {
            let a = choose|a: int| 0 <= a < list.len() && list[a] == x;
            let a2 = if a < i { a } else { a - 1 };
            assert(l2[a2] == x);
        }
    }
}

/// The principals whose credentials accompany one call.
pub struct AuthContext {
    signers: Vec<Address>,
}

impl View for AuthContext {
    type V = Set<Seq<char>>;

    closed spec fn view(&self) -> Set<Seq<char>> {
        Set::new(|p: Seq<char>| exists|i: int| 0 <= i < self.signers@.len() && self.signers@[i]@ == p)
    }
}

impl AuthContext {
    /// A call that nobody signed.
    pub fn none() -> (r: Self)
        ensures
            r@ == Set::<Seq<char>>::empty(),
    {
        let r = AuthContext { signers: Vec::new() };
        assert(r@ =~= Set::<Seq<char>>::empty());
        r
    }

    /// A call signed by every principal of `signers`.
    pub fn of(signers: Vec<Address>) -> (r: Self)
        ensures
            forall|p: Seq<char>| r@.contains(p) <==> exists|i: int| 0 <= i < signers@.len() && signers@[i]@ == p,
    {
        AuthContext { signers }
    }

    /// Whether the call carries a credential for `who`.
    pub fn authorizes(&self, who: &Address) -> (r: bool)
        ensures
            r == self@.contains(who@),
    {
        let mut i: usize = 0;
        while i < self.signers.len()
            invariant
                i <= self.signers@.len(),
                forall|j: int| 0 <= j < i ==> self.signers@[j]@ != who@,
            decreases self.signers@.len() - i,
        {
            if self.signers[i].same(who) {
                return true;
            }
            i += 1;
        }
        false
    }
}

} // verus!
