//! The sequence of items in memory.

use crate::error::QueueError;
use crate::format::{all_lines, decode, decode_lines, is_item, is_valid_item, lemma_decode_lines};
use crate::rewrite::Rewrite;
use std::collections::VecDeque;
use vstd::prelude::*;

verus! {

/// A first-in, first-out queue of text items. Items may repeat; two equal items differ
/// by their place only. Every item fits on one line of the backing file.
#[derive(Debug)]
pub struct Queue {
    items: VecDeque<String>,
}

impl View for Queue {
    type V = Seq<Seq<char>>;

    /// The items, the one that leaves first at index 0.
    closed spec fn view(&self) -> Seq<Seq<char>> {
        self.items.deep_view()
    }
}

impl Queue {
    #[verifier::type_invariant]
    spec fn inv(&self) -> bool {
        all_lines(self.items.deep_view())
    }

    /// Moves the items out and leaves the queue empty, for the caller to put them back.
    fn take_items(&mut self) -> (items: VecDeque<String>)
        ensures
            items == old(self).items,
            final(self).items@.len() == 0,
    {
        let mut items: VecDeque<String> = VecDeque::new();
        core::mem::swap(&mut self.items, &mut items);
        items
    }

    /// The queue that the current file with content `content` stands for: one item
    /// for each line, in the order of the file.
    pub fn new(content: &str) -> (queue: Queue)
        ensures
            queue@ == decode(content@),
            all_lines(queue@),
    {
        proof {
            lemma_decode_lines(content@);
        }
        Queue { items: decode_lines(content) }
    }

    /// The number of items.
    pub fn len(&self) -> (n: usize)
        ensures
            n == self@.len(),
    {
        self.items.len()
    }

    /// Whether the queue holds no item.
    pub fn is_empty(&self) -> (empty: bool)
        ensures
            empty == (self@.len() == 0),
    {
        self.items.len() == 0
    }

    /// A copy of the items, the one that leaves first at index 0.
    pub fn items(&self) -> (items: Vec<String>)
        ensures
            items.deep_view() == self@,
            all_lines(self@),
    {
        proof {
            use_type_invariant(self);
        }
        let mut items: Vec<String> = Vec::new();
        let mut i: usize = 0;
        while i < self.items.len()
            invariant
                i <= self.items.len(),
                items.deep_view() == self.items.deep_view().take(i as int),
            decreases self.items.len() - i,
        {
            let ghost before = items.deep_view();
            items.push(self.items[i].clone());
            assert(items.deep_view() == before.push(self.items.deep_view()[i as int]));
            i = i + 1;
        }
        items
    }

    /// The place of the first item equal to `item`, if there is one.
    pub fn position(&self, item: &str) -> (place: Option<usize>)
        ensures
            match place {
                Some(i) => self@.index_of_first(item@) == Some(i as int),
                None => self@.index_of_first(item@) is None,
            },
    {
        let wanted = item.to_owned();
        let mut i: usize = 0;
        while i < self.items.len()
            invariant
                i <= self.items.len(),
                wanted@ == item@,
                forall|j: int| 0 <= j < i ==> self@[j] != item@,
            decreases self.items.len() - i,
        {
            if self.items[i] == wanted {
                proof {
                    assert(self@[i as int] == item@);
                    self@.index_of_first_ensures(item@);
                }
                return Some(i);
            }
            i = i + 1;
        }
        proof {
            self@.index_of_first_ensures(item@);
        }
        None
    }

    /// Puts `item` at the back of the queue. An item that is empty or holds a line
    /// break is refused, and the queue stays as it was.
    pub fn add(&mut self, item: &str) -> (result: Result<(), QueueError>)
        ensures
            is_item(item@) ==> {
                &&& result is Ok
                &&& final(self)@ == old(self)@.push(item@)
            },
            !is_item(item@) ==> {
                &&& result == Err::<(), QueueError>(QueueError::InvalidItem)
                &&& final(self)@ == old(self)@
            },
            all_lines(final(self)@),
    {
        proof {
            use_type_invariant(&*self);
        }
        if !is_valid_item(item) {
            return Err(QueueError::InvalidItem);
        }
        let mut items = self.take_items();
        let ghost before = items.deep_view();
        items.push_back(item.to_owned());
        assert(items.deep_view() == before.push(item@));
        self.items = items;
        Ok(())
    }

    /// Takes the first item equal to `item` out of the queue and returns it, together
    /// with the replacement of the current file that is now due. If no item is equal
    /// to `item`, the queue stays as it was and no replacement is due.
    pub fn remove(&mut self, item: &str) -> (result: Result<(String, Rewrite), QueueError>)
        ensures
            match result {
                Ok((removed, rewrite)) => {
                    &&& old(self)@.contains(item@)
                    &&& removed@ == item@
                    &&& final(self)@ == old(self)@.remove_value(item@)
                    &&& rewrite.items() == final(self)@
                    &&& rewrite.done() == 0
                },
                Err(e) => {
                    &&& e == QueueError::NotFound
                    &&& !old(self)@.contains(item@)
                    &&& final(self)@ == old(self)@
                },
            },
            all_lines(final(self)@),
    {
        proof {
            use_type_invariant(&*self);
            self@.index_of_first_ensures(item@);
        }
        match self.position(item) {
            None => Err(QueueError::NotFound),
            Some(i) => {
                let mut items = self.take_items();
                let ghost before = items.deep_view();
                let removed = items.remove(i);
                assert(items.deep_view() == before.remove(i as int));
                self.items = items;
                match removed {
                    None => Err(QueueError::NotFound),
                    Some(removed) => Ok((removed, Rewrite::new(self.items()))),
                }
            },
        }
    }

    /// Takes the item at the front out of the queue and returns it, together with the
    /// replacement of the current file that is now due. If the queue is empty, it
    /// stays so and no replacement is due.
    pub fn pop(&mut self) -> (result: Result<(String, Rewrite), QueueError>)
        ensures
            match result {
                Ok((front, rewrite)) => {
                    &&& old(self)@.len() > 0
                    &&& front@ == old(self)@.first()
                    &&& final(self)@ == old(self)@.drop_first()
                    &&& rewrite.items() == final(self)@
                    &&& rewrite.done() == 0
                },
                Err(e) => {
                    &&& e == QueueError::EmptyQueue
                    &&& old(self)@.len() == 0
                    &&& final(self)@ == old(self)@
                },
            },
            all_lines(final(self)@),
    {
        proof {
            use_type_invariant(&*self);
        }
        let mut items = self.take_items();
        let ghost before = items.deep_view();
        let front = items.pop_front();
        assert(front is Some ==> items.deep_view() == before.drop_first());
        self.items = items;
        match front {
            None => Err(QueueError::EmptyQueue),
            Some(front) => Ok((front, Rewrite::new(self.items()))),
        }
    }
}

} // verus!
