//! The records the selection engine and its callers exchange.
//!
//! Timestamps are whole seconds since the Unix epoch (UTC); user identities
//! are 128-bit values.
use vstd::prelude::*;

verus! {

/// A practice problem.
#[derive(Clone, Debug)]
pub struct Problem {
    pub id: i32,
    pub body: Option<String>,
    pub author: Option<String>,
    pub source: Option<String>,
    pub solnlink: Option<String>,
    pub submitted_at: i64,
    pub user_id: Option<u128>,
    pub img_path: Option<String>,
}

/// A reference solution; it belongs to exactly one problem.
#[derive(Clone, Debug)]
pub struct Solution {
    pub id: i32,
    pub problem_id: i32,
    pub body: Option<String>,
    pub submitted_at: i64,
    pub user_id: Option<u128>,
    pub img_path: Option<String>,
}

/// One link of the many-to-many relation between problems and topics.
#[derive(Clone, Copy, Debug, PartialEq, Eq, Structural)]
pub struct ProblemTopic {
    pub problem_id: i32,
    pub topic_id: i32,
}

/// A learner's latest attempt at a problem: when it happened and whether it
/// succeeded. There is at most one such record per (learner, problem) pair.
#[derive(Clone, Copy, Debug, PartialEq, Eq, Structural)]
pub struct UserProblem {
    pub user_id: u128,
    pub problem_id: i32,
    pub last_solved: i64,
    pub successful: bool,
}

/// A registered user.
#[derive(Clone, Debug)]
pub struct User {
    pub name: String,
    pub email: String,
    pub id: u128,
    pub password: Option<String>,
}

/// A one-time token that allows a new user to register.
#[derive(Clone, Debug)]
pub struct AccessToken {
    pub id: u128,
    pub name: String,
    pub redeemed: bool,
}

/// The module a new problem is filed under: a fresh one by title, or an
/// existing one by id.
#[derive(Clone, Debug)]
pub enum AddModule {
    New(String),
    Existing(i32),
}

/// The topic a new problem is filed under: a fresh one by title, or an
/// existing one by id.
#[derive(Clone, Debug)]
pub enum AddTopic {
    New(String),
    Existing(i32),
}

/// The problem fields supplied when a problem is created.
#[derive(Clone, Debug)]
pub struct InsertProblem {
    pub body: Option<String>,
    pub author: Option<String>,
    pub source: Option<String>,
    pub solnlink: Option<String>,
    pub img_path: Option<String>,
}

/// A request to create a problem, with its module, topic and optional
/// solution.
#[derive(Clone, Debug)]
pub struct NewProblem {
    pub module: AddModule,
    pub topic: AddTopic,
    pub soln: Option<String>,
    pub soln_img: Option<String>,
    pub problem: InsertProblem,
}

/// The fields supplied when a module is created.
#[derive(Clone, Debug)]
pub struct InsertModule {
    pub title: String,
}

/// A group of topics.
#[derive(Clone, Debug)]
pub struct Module {
    pub id: i32,
    pub title: String,
}

/// A topic; it belongs to one module.
#[derive(Clone, Debug)]
pub struct Topic {
    pub id: i32,
    pub module_id: i32,
    pub title: String,
}

/// Every module together with every topic.
#[derive(Clone, Debug)]
pub struct ModulesView {
    pub modules: Vec<Module>,
    pub topics: Vec<Topic>,
}

impl InsertProblem {
    /// A problem must have a statement: a body, an image, or both.
    pub fn has_content(&self) -> (r: bool)
        ensures
            r == (self.body is Some || self.img_path is Some),
    {
        self.body.is_some() || self.img_path.is_some()
    }
}

impl NewProblem {
    /// A solution is stored along with the problem when a solution body or a
    /// solution image was supplied.
    pub fn has_solution(&self) -> (r: bool)
        ensures
            r == (self.soln is Some || self.soln_img is Some),
    {
        self.soln.is_some() || self.soln_img.is_some()
    }
}

} // verus!
