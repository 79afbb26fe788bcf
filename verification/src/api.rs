//! What the HTTP interface answers: the algorithm catalogue and the reports on
//! tasks and the scheduler queue.
use vstd::prelude::*;
use crate::json::{report_view, JsonField, JsonVal};
use crate::string_map::chars_of;
use crate::types::QueueStatus;

verus! {

/// The algorithms the service offers: the native arithmetic and text ones, echo,
/// and the reserved families.
pub open spec fn catalogue() -> Seq<Seq<char>> {
    seq![
        "add"@,
        "multiply"@,
        "reverse"@,
        "sort"@,
        "echo"@,
        "image_processing"@,
        "data_analysis"@,
        "machine_learning"@,
        "signal_processing"@,
    ]
}

/// The algorithm catalogue, in order.
pub fn algorithm_names() -> (v: Vec<String>)
    ensures
        chars_of(v@) == catalogue(),
{
    let mut v: Vec<String> = Vec::new();
    v.push(String::from_str("add"));
    v.push(String::from_str("multiply"));
    v.push(String::from_str("reverse"));
    v.push(String::from_str("sort"));
    v.push(String::from_str("echo"));
    v.push(String::from_str("image_processing"));
    v.push(String::from_str("data_analysis"));
    v.push(String::from_str("machine_learning"));
    v.push(String::from_str("signal_processing"));
    proof {
        assert(chars_of(v@) =~= catalogue());
    }
    v
}

/// The body listing the algorithms: the names, their number, and a description.
pub fn list_algorithms() -> (r: Vec<(String, JsonField)>)
    ensures
        report_view(r@) == seq![
            ("algorithms"@, JsonVal::Texts(catalogue())),
            ("count"@, JsonVal::Count(9)),
            ("description"@, JsonVal::Text("支持的算法包括C++实现的数学运算和字符串处理算法"@)),
        ],
{
    let names = algorithm_names();
    let mut r: Vec<(String, JsonField)> = Vec::new();
    r.push((String::from_str("algorithms"), JsonField::Texts(names)));
    r.push((String::from_str("count"), JsonField::Count(9)));
    r.push(
        (String::from_str("description"), JsonField::Text(String::from_str("支持的算法包括C++实现的数学运算和字符串处理算法"))),
    );
    proof {
        assert(report_view(r@) =~= seq![
            ("algorithms"@, JsonVal::Texts(catalogue())),
            ("count"@, JsonVal::Count(9)),
            ("description"@, JsonVal::Text("支持的算法包括C++实现的数学运算和字符串处理算法"@)),
        ]);
    }
    r
}

/// The body of the scheduler's queue state.
pub fn scheduler_status_report(q: &QueueStatus) -> (r: Vec<(String, JsonField)>)
    ensures
        report_view(r@) == seq![
            ("queued_tasks"@, JsonVal::Count(q.queued_tasks as u64)),
            ("active_tasks"@, JsonVal::Count(q.active_tasks as u64)),
            ("max_concurrent"@, JsonVal::Count(q.max_concurrent as u64)),
        ],
{
    let mut r: Vec<(String, JsonField)> = Vec::new();
    r.push((String::from_str("queued_tasks"), JsonField::Count(q.queued_tasks as u64)));
    r.push((String::from_str("active_tasks"), JsonField::Count(q.active_tasks as u64)));
    r.push((String::from_str("max_concurrent"), JsonField::Count(q.max_concurrent as u64)));
    proof {
        assert(report_view(r@) =~= seq![
            ("queued_tasks"@, JsonVal::Count(q.queued_tasks as u64)),
            ("active_tasks"@, JsonVal::Count(q.active_tasks as u64)),
            ("max_concurrent"@, JsonVal::Count(q.max_concurrent as u64)),
        ]);
    }
    r
}

/// The body answering a submission: the task's id, "submitted", and a message.
pub fn submitted_report(task_id: &str) -> (r: Vec<(String, JsonField)>)
    ensures
        report_view(r@) == seq![
            ("task_id"@, JsonVal::Text(task_id@)),
            ("status"@, JsonVal::Text("submitted"@)),
            ("message"@, JsonVal::Text("Task submitted to scheduler"@)),
        ],
{
    let mut r: Vec<(String, JsonField)> = Vec::new();
    r.push((String::from_str("task_id"), JsonField::Text(String::from_str(task_id))));
    r.push((String::from_str("status"), JsonField::Text(String::from_str("submitted"))));
    r.push((String::from_str("message"), JsonField::Text(String::from_str("Task submitted to scheduler"))));
    proof {
        assert(report_view(r@) =~= seq![
            ("task_id"@, JsonVal::Text(task_id@)),
            ("status"@, JsonVal::Text("submitted"@)),
            ("message"@, JsonVal::Text("Task submitted to scheduler"@)),
        ]);
    }
    r
}

/// The body answering a cancellation: done, or the task was not found.
pub fn cancel_report(task_id: &str, cancelled: bool) -> (r: Vec<(String, JsonField)>)
    ensures
        cancelled ==> report_view(r@) == seq![
            ("task_id"@, JsonVal::Text(task_id@)),
            ("status"@, JsonVal::Text("cancelled"@)),
            ("message"@, JsonVal::Text("Task cancelled successfully"@)),
        ],
        !cancelled ==> report_view(r@) == seq![
            ("error"@, JsonVal::Text("Task not found or already completed"@)),
            ("task_id"@, JsonVal::Text(task_id@)),
        ],
{
    let mut r: Vec<(String, JsonField)> = Vec::new();
    if cancelled {
        r.push((String::from_str("task_id"), JsonField::Text(String::from_str(task_id))));
        r.push((String::from_str("status"), JsonField::Text(String::from_str("cancelled"))));
        r.push((String::from_str("message"), JsonField::Text(String::from_str("Task cancelled successfully"))));
        proof {
            assert(report_view(r@) =~= seq![
                ("task_id"@, JsonVal::Text(task_id@)),
                ("status"@, JsonVal::Text("cancelled"@)),
                ("message"@, JsonVal::Text("Task cancelled successfully"@)),
            ]);
        }
    } else {
        r.push((String::from_str("error"), JsonField::Text(String::from_str("Task not found or already completed"))));
        r.push((String::from_str("task_id"), JsonField::Text(String::from_str(task_id))));
        proof {
            assert(report_view(r@) =~= seq![
                ("error"@, JsonVal::Text("Task not found or already completed"@)),
                ("task_id"@, JsonVal::Text(task_id@)),
            ]);
        }
    }
    r
}

} // verus!
