//! Records of the project interchange XML dialect (Project / Tasks / Task /
//! PredecessorLink), as plain values.

use vstd::prelude::*;

verus! {

/// A `<PredecessorLink>` element.
#[derive(Clone, Copy, Debug, PartialEq, Eq, Structural)]
pub struct MspdiPredecessorLink {
    pub predecessor_uid: i32,
    pub link_type: i32,
    pub cross_project: i32,
    pub link_lag: i32,
    pub lag_format: i32,
}

/// A `<Task>` element.
#[derive(Clone, Debug, PartialEq)]
pub struct MspdiTask {
    pub uid: i32,
    pub id: i32,
    pub name: String,
    pub start: String,
    pub finish: String,
    pub duration: String,
    pub percent_complete: i32,
    pub active: i32,
    pub manual: i32,
    pub outline_number: String,
    pub outline_level: i32,
    pub priority: i32,
    pub notes: String,
    pub wbs: String,
    pub predecessor_link: Vec<MspdiPredecessorLink>,
}

/// The `<Tasks>` element.
#[derive(Clone, Debug, PartialEq)]
pub struct Tasks {
    pub task: Vec<MspdiTask>,
}

/// The `<Project>` root element.
#[derive(Clone, Debug, PartialEq)]
pub struct Project {
    pub title: String,
    pub tasks: Tasks,
}

/// The mathematical value of an [`MspdiTask`].
pub struct MspdiTaskModel {
    pub uid: i32,
    pub id: i32,
    pub name: Seq<char>,
    pub start: Seq<char>,
    pub finish: Seq<char>,
    pub duration: Seq<char>,
    pub percent_complete: i32,
    pub active: i32,
    pub manual: i32,
    pub outline_number: Seq<char>,
    pub outline_level: i32,
    pub priority: i32,
    pub notes: Seq<char>,
    pub wbs: Seq<char>,
    pub predecessor_link: Seq<MspdiPredecessorLink>,
}

impl View for MspdiTask {
    type V = MspdiTaskModel;

    open spec fn view(&self) -> MspdiTaskModel {
        MspdiTaskModel {
            uid: self.uid,
            id: self.id,
            name: self.name@,
            start: self.start@,
            finish: self.finish@,
            duration: self.duration@,
            percent_complete: self.percent_complete,
            active: self.active,
            manual: self.manual,
            outline_number: self.outline_number@,
            outline_level: self.outline_level,
            priority: self.priority,
            notes: self.notes@,
            wbs: self.wbs@,
            predecessor_link: self.predecessor_link@,
        }
    }
}

/// The models of a sequence of interchange tasks.
pub open spec fn mspdi_models(ts: Seq<MspdiTask>) -> Seq<MspdiTaskModel> {
    ts.map_values(|t: MspdiTask| t@)
}

impl Default for Project {
    /// A project with no title and no tasks.
    fn default() -> (r: Project)
        ensures
            r.title@.len() == 0,
            r.tasks.task@.len() == 0,
    {
        Project { title: String::new(), tasks: Tasks { task: Vec::new() } }
    }
}

} // verus!
