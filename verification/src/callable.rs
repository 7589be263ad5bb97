//! Asynchronous calls between modules and the engine.
use vstd::prelude::*;
use core::marker::PhantomData;

verus! {

/// The identifier of a task whose result is awaited.
pub type TaskId = u32;

/// A plain value passed by its bytes.
#[derive(Clone, Copy)]
pub struct Pod<T: Copy>(pub T);

/// The completions of the asynchronous calls of the function `F`.
pub struct Completion<F> {
    marker: PhantomData<F>,
}

impl<F> Completion<F> {
    pub fn new() -> (r: Completion<F>) {
        Completion { marker: PhantomData }
    }
}

/// The result of one asynchronous call as the engine hands it over: where its
/// return value and its user data lie in memory, and how many bytes each holds.
#[derive(Clone, Copy, Debug, PartialEq, Eq, Structural)]
pub struct AsyncCompletionValue {
    pub return_value_ptr: usize,
    pub return_value_size: usize,
    pub user_data_ptr: usize,
    pub user_data_size: usize,
}

impl AsyncCompletionValue {
    /// No completion: null addresses and no bytes.
    pub fn null() -> (r: AsyncCompletionValue)
        ensures
            r.return_value_ptr == 0,
            r.return_value_size == 0,
            r.user_data_ptr == 0,
            r.user_data_size == 0,
    {
        AsyncCompletionValue {
            return_value_ptr: 0,
            return_value_size: 0,
            user_data_ptr: 0,
            user_data_size: 0,
        }
    }

    /// The completion lacks its return value or its user data.
    pub fn is_null(&self) -> (r: bool)
        ensures
            r == (self.return_value_ptr == 0 || self.return_value_size == 0 || self.user_data_ptr
                == 0 || self.user_data_size == 0),
    {
        self.return_value_ptr == 0 || self.return_value_size == 0 || self.user_data_ptr == 0
            || self.user_data_size == 0
    }
}

/// Writes the return value of the task `task_id`.
pub struct ReturnWriter<T> {
    task_id: u32,
    marker: PhantomData<T>,
}

impl<T> ReturnWriter<T> {
    pub closed spec fn spec_task_id(&self) -> u32 {
        self.task_id
    }

    pub fn new(task_id: TaskId) -> (r: ReturnWriter<T>)
        ensures
            r.spec_task_id() == task_id,
    {
        ReturnWriter { task_id, marker: PhantomData }
    }

    pub fn task_id(&self) -> (r: TaskId)
        ensures
            r == self.spec_task_id(),
    {
        self.task_id
    }
}

} // verus!
