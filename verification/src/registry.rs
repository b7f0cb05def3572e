//! Handlers, registered under the names of the jobs they run.

use vstd::prelude::*;

use crate::text::{same_text, texts};

verus! {

/// What a handler reports of a failed attempt.
#[derive(Debug)]
pub struct HandlerError {
    message: String,
}

impl View for HandlerError {
    type V = Seq<char>;

    closed spec fn view(&self) -> Seq<char> {
        self.message@
    }
}

impl HandlerError {
    /// The error with a message.
    pub fn new(message: &str) -> (error: Self)
        ensures
            error@ == message@,
    {
        HandlerError { message: message.to_owned() }
    }

    /// The message.
    pub fn to_string(&self) -> (message: String)
        ensures
            message@ == self@,
    {
        self.message.clone()
    }

    /// Takes the message of what went wrong, if anything did, for the handler's error. A handler
    /// whose payload could not be read fails by this without being run.
    pub fn lift<T>(result: Result<T, String>) -> (lifted: Result<T, HandlerError>)
        ensures
            match result {
                Ok(value) => lifted == Ok::<T, HandlerError>(value),
                Err(message) => lifted matches Err(error) && error@ == message@,
            },
    {
        match result {
            Ok(value) => Ok(value),
            Err(message) => Err(HandlerError { message }),
        }
    }
}

/// Whether a list of handlers has one under a name.
spec fn has_name<H>(handlers: Seq<(String, H)>, name: Seq<char>) -> bool {
    exists|i: int| 0 <= i < handlers.len() && (#[trigger] handlers[i]).0@ == name
}

/// The handlers of a list, by name.
spec fn by_name<H>(handlers: Seq<(String, H)>) -> Map<Seq<char>, H> {
    Map::new(
        |name: Seq<char>| has_name(handlers, name),
        |name: Seq<char>|
            handlers[choose|i: int| 0 <= i < handlers.len() && (#[trigger] handlers[i]).0@ == name].1,
    )
}

/// Whether no two handlers of a list have the same name.
spec fn names_distinct<H>(handlers: Seq<(String, H)>) -> bool {
    forall|i: int, j: int|
        0 <= i < handlers.len() && 0 <= j < handlers.len() && i != j ==> (
        #[trigger] handlers[i]).0@ != (#[trigger] handlers[j]).0@
}

/// A handler is found under its name.
proof fn lemma_by_name<H>(handlers: Seq<(String, H)>, place: int)
    requires
        names_distinct(handlers),
        0 <= place < handlers.len(),
    ensures
        by_name(handlers).contains_key(handlers[place].0@),
        by_name(handlers)[handlers[place].0@] == handlers[place].1,
{
    let name = handlers[place].0@;
    assert(has_name(handlers, name));
    let found = choose|i: int| 0 <= i < handlers.len() && (#[trigger] handlers[i]).0@ == name;
    assert(handlers[found].0@ == name);
}

fn find_name<H>(handlers: &Vec<(String, H)>, name: &str) -> (place: Option<usize>)
    ensures
        match place {
            Some(place) => place < handlers@.len() && handlers@[place as int].0@ == name@,
            None => !has_name(handlers@, name@),
        },
{
    let mut i: usize = 0;
    while i < handlers.len()
        invariant
            i <= handlers@.len(),
            forall|j: int| 0 <= j < i ==> (#[trigger] handlers@[j]).0@ != name@,
        decreases handlers@.len() - i,
    {
        if same_text(handlers[i].0.as_str(), name) {
            return Some(i);
        }
        i = i + 1;
    }
    None
}

/// The handlers of a worker. Its view is a map from names to handlers.
pub struct Registry<H> {
    handlers: Vec<(String, H)>,
}

impl<H> View for Registry<H> {
    type V = Map<Seq<char>, H>;

    closed spec fn view(&self) -> Map<Seq<char>, H> {
        by_name(self.handlers@)
    }
}

impl<H> Registry<H> {
    #[verifier::type_invariant]
    spec fn distinct(self) -> bool {
        names_distinct(self.handlers@)
    }

    /// A builder without handlers.
    pub fn builder() -> (builder: RegistryBuilder<H>)
        ensures
            builder@ == Map::<Seq<char>, H>::empty(),
    {
        RegistryBuilder::new()
    }

    /// The names under which handlers are registered, each once.
    pub fn names(&self) -> (names: Vec<String>)
        ensures
            texts(names@).no_duplicates(),
            forall|name: Seq<char>|
                texts(names@).contains(name) <==> #[trigger] self@.contains_key(name),
    {
        proof {
            use_type_invariant(self);
        }
        let mut names: Vec<String> = Vec::new();
        let mut i: usize = 0;
        while i < self.handlers.len()
            invariant
                i <= self.handlers@.len(),
                names@.len() == i,
                forall|j: int| 0 <= j < i ==> (#[trigger] names@[j])@ == self.handlers@[j].0@,
            decreases self.handlers@.len() - i,
        {
            names.push(self.handlers[i].0.clone());
            i = i + 1;
        }
        proof {
            let all = texts(names@);
            assert forall|j: int| 0 <= j < all.len() implies #[trigger] all[j]
                == self.handlers@[j].0@ by {
                assert(all[j] == names@[j]@);
            }
            assert forall|name: Seq<char>| all.contains(name) <==> #[trigger] self@.contains_key(
                name,
            ) by {
                if all.contains(name) {
                    let j = choose|j: int| 0 <= j < all.len() && all[j] == name;
                    assert(self.handlers@[j].0@ == name);
                }
                if has_name(self.handlers@, name) {
                    let j = choose|j: int|
                        0 <= j < self.handlers@.len() && (#[trigger] self.handlers@[j]).0@ == name;
                    assert(all[j] == name);
                }
            }
        }
        names
    }

    /// The handler registered under a name.
    pub fn get(&self, name: &str) -> (handler: Option<&H>)
        ensures
            match handler {
                Some(handler) => self@.contains_key(name@) && *handler == self@[name@],
                None => !self@.contains_key(name@),
            },
    {
        proof {
            use_type_invariant(self);
        }
        match find_name(&self.handlers, name) {
            Some(place) => {
                proof {
                    lemma_by_name(self.handlers@, place as int);
                }
                Some(&self.handlers[place].1)
            },
            None => None,
        }
    }
}

/// Handlers in the making. Its view is a map from names to handlers.
pub struct RegistryBuilder<H> {
    handlers: Vec<(String, H)>,
}

impl<H> View for RegistryBuilder<H> {
    type V = Map<Seq<char>, H>;

    closed spec fn view(&self) -> Map<Seq<char>, H> {
        by_name(self.handlers@)
    }
}

impl<H> RegistryBuilder<H> {
    #[verifier::type_invariant]
    spec fn distinct(self) -> bool {
        names_distinct(self.handlers@)
    }

    fn new() -> (builder: Self)
        ensures
            builder@ == Map::<Seq<char>, H>::empty(),
    {
        let builder = RegistryBuilder { handlers: Vec::new() };
        assert(builder@ =~= Map::<Seq<char>, H>::empty());
        builder
    }

    /// Registers a handler. It takes the place of one that has the same name.
    pub fn register(self, name: &str, handler: H) -> (builder: Self)
        ensures
            builder@ == self@.insert(name@, handler),
    {
        proof {
            use_type_invariant(&self);
        }
        let ghost before = self.handlers@;
        let mut handlers: Vec<(String, H)> = self.handlers;
        match find_name(&handlers, name) {
            Some(place) => {
                handlers[place] = (name.to_owned(), handler);
                proof {
                    let after = handlers@;
                    assert forall|i: int| 0 <= i < after.len() implies (#[trigger] after[i]).0@
                        == before[i].0@ by {}
                    assert(names_distinct(after));
                    assert forall|other: Seq<char>| has_name(after, other) == (has_name(before, other)
                        || other == name@) by {
                        if has_name(before, other) {
                            let i = choose|i: int|
                                0 <= i < before.len() && (#[trigger] before[i]).0@ == other;
                            assert(after[i].0@ == other);
                        }
                        assert(after[place as int].0@ == name@);
                    }
                    assert forall|other: Seq<char>| has_name(after, other) implies by_name(
                        after,
                    )[other] == by_name(before).insert(name@, handler)[other] by {
                        let i = choose|i: int|
                            0 <= i < after.len() && (#[trigger] after[i]).0@ == other;
                        lemma_by_name(after, i);
                        if other != name@ {
                            lemma_by_name(before, i);
                        }
                    }
                    assert(by_name(after) =~= by_name(before).insert(name@, handler));
                }
            },
            None => {
                handlers.push((name.to_owned(), handler));
                proof {
                    let after = handlers@;
                    assert forall|i: int| 0 <= i < before.len() implies #[trigger] after[i]
                        == before[i] && before[i].0@ != name@ by {}
                    assert(after[before.len() as int].0@ == name@);
                    assert(names_distinct(after));
                    assert forall|other: Seq<char>| has_name(after, other) == (has_name(before, other)
                        || other == name@) by {
                        if has_name(before, other) {
                            let i = choose|i: int|
                                0 <= i < before.len() && (#[trigger] before[i]).0@ == other;
                            assert(after[i].0@ == other);
                        }
                        if has_name(after, other) && other != name@ {
                            let i = choose|i: int|
                                0 <= i < after.len() && (#[trigger] after[i]).0@ == other;
                            assert(before[i].0@ == other);
                        }
                    }
                    assert forall|other: Seq<char>| has_name(after, other) implies by_name(
                        after,
                    )[other] == by_name(before).insert(name@, handler)[other] by {
                        let i = choose|i: int|
                            0 <= i < after.len() && (#[trigger] after[i]).0@ == other;
                        lemma_by_name(after, i);
                        if other != name@ {
                            lemma_by_name(before, i);
                        }
                    }
                    assert(by_name(after) =~= by_name(before).insert(name@, handler));
                }
            },
        }
        RegistryBuilder { handlers }
    }

    /// Finishes the registry.
    pub fn build(self) -> (registry: Registry<H>)
        ensures
            registry@ == self@,
    {
        proof {
            use_type_invariant(&self);
        }
        Registry { handlers: self.handlers }
    }
}

} // verus!
