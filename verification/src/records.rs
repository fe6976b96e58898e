//! A list of medical records and the actions that change it.

use vstd::prelude::*;
use vstd::string::*;

verus! {

/// One patient's record. The weight is in tenths of a kilogram.
#[derive(Debug)]
pub struct MedicalRecord {
    pub name: String,
    pub surname: String,
    pub age: usize,
    pub weight: u32,
}

/// A record as plain values: name, surname, age and weight.
pub struct RecordView {
    pub name: Seq<char>,
    pub surname: Seq<char>,
    pub age: usize,
    pub weight: u32,
}

impl View for MedicalRecord {
    type V = RecordView;

    open spec fn view(&self) -> RecordView {
        RecordView {
            name: self.name@,
            surname: self.surname@,
            age: self.age,
            weight: self.weight,
        }
    }
}

/// The records on file, in the order they are listed.
#[derive(Debug)]
pub struct Model {
    pub patients: Vec<MedicalRecord>,
}

impl View for Model {
    type V = Seq<RecordView>;

    open spec fn view(&self) -> Seq<RecordView> {
        self.patients@.map_values(|r: MedicalRecord| r@)
    }
}

/// What a user of the record list can ask for.
#[derive(Debug)]
pub enum Action {
    ChangeName { record_position: usize, name: String, surname: String },
    CreateNew,
    DeleteRecord(usize),
    Quit,
}

impl Clone for Action {
    fn clone(&self) -> (copy: Action)
        ensures
            match (*self, copy) {
                (
                    Action::ChangeName { record_position, name, surname },
                    Action::ChangeName { record_position: position, name: n, surname: s },
                ) => position == record_position && n@ == name@ && s@ == surname@,
                (Action::CreateNew, Action::CreateNew) => true,
                (Action::DeleteRecord(record_id), Action::DeleteRecord(id)) => id == record_id,
                (Action::Quit, Action::Quit) => true,
                _ => false,
            },
    {
        match self {
            Action::ChangeName { record_position, name, surname } => Action::ChangeName {
                record_position: *record_position,
                name: name.clone(),
                surname: surname.clone(),
            },
            Action::CreateNew => Action::CreateNew,
            Action::DeleteRecord(record_id) => Action::DeleteRecord(*record_id),
            Action::Quit => Action::Quit,
        }
    }
}

/// What is left to do once an action has been applied to the records.
#[derive(Debug, Clone, Copy, PartialEq, Eq, Structural)]
pub enum Effect {
    /// Keep running.
    Continue,
    /// Stop the program.
    Quit,
}

/// The three records that a new list starts with.
pub open spec fn initial_records() -> Seq<RecordView> {
    seq![
        RecordView { name: "Pedro"@, surname: "Rodriguez"@, age: 25, weight: 930 },
        RecordView { name: "Homar"@, surname: "Sanchez"@, age: 38, weight: 842 },
        RecordView { name: "Carlos"@, surname: "Gutierrez"@, age: 31, weight: 1031 },
    ]
}

/// The record that `CreateNew` appends.
pub open spec fn created_record() -> RecordView {
    RecordView { name: "Eucebio"@, surname: "Valente"@, age: 72, weight: 678 }
}

/// The records after an action. Creating appends one fixed record,
/// deleting takes out the record at the given position, and the other
/// actions leave the records as they are.
pub open spec fn records_after(records: Seq<RecordView>, event: Action) -> Seq<RecordView> {
    match event {
        Action::CreateNew => records.push(created_record()),
        Action::DeleteRecord(record_id) => records.remove(record_id as int),
        Action::ChangeName { .. } => records,
        Action::Quit => records,
    }
}

impl Model {
    pub fn new() -> (model: Model)
        ensures
            model@ == initial_records(),
    {
        let mut patients: Vec<MedicalRecord> = Vec::new();
        patients.push(
            MedicalRecord {
                name: String::from_str("Pedro"),
                surname: String::from_str("Rodriguez"),
                age: 25,
                weight: 930,
            },
        );
        patients.push(
            MedicalRecord {
                name: String::from_str("Homar"),
                surname: String::from_str("Sanchez"),
                age: 38,
                weight: 842,
            },
        );
        patients.push(
            MedicalRecord {
                name: String::from_str("Carlos"),
                surname: String::from_str("Gutierrez"),
                age: 31,
                weight: 1031,
            },
        );
        let model = Model { patients };
        assert(model@ =~= initial_records());
        model
    }

    /// Applies one action to the records and says whether the program is
    /// to stop. A record to delete must be on the list.
    pub fn handle_event(&mut self, event: Action) -> (effect: Effect)
        requires
            event matches Action::DeleteRecord(record_id) ==> record_id < old(self)@.len(),
        ensures
            final(self)@ == records_after(old(self)@, event),
            effect == (if event is Quit {
                Effect::Quit
            } else {
                Effect::Continue
            }),
    {
        match event {
            Action::Quit => Effect::Quit,
            Action::ChangeName { .. } => Effect::Continue,
            Action::CreateNew => {
                self.patients.push(
                    MedicalRecord {
                        name: String::from_str("Eucebio"),
                        surname: String::from_str("Valente"),
                        age: 72,
                        weight: 678,
                    },
                );
                assert(self@ =~= old(self)@.push(created_record()));
                Effect::Continue
            },
            Action::DeleteRecord(record_id) => {
                self.patients.remove(record_id);
                assert(self@ =~= old(self)@.remove(record_id as int));
                Effect::Continue
            },
        }
    }
}

} // verus!
