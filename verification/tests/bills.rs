use lockedin::{
    Account, BillAdded, BillCancelled, BillCategory, BillPaid, BillPayment, Error, Identity,
    LockedIn, NewBill, Transfer,
};

const DAY: u64 = 24 * 60 * 60;

fn person(key: u64) -> Identity {
    Identity { key }
}

fn declared(name: &str, amount: i128, due_date: u64, is_recurring: bool, months: Vec<u32>) -> NewBill {
    NewBill {
        name: String::from(name),
        amount,
        due_date,
        is_recurring,
        recurrence_calendar: months,
        category: BillCategory::Utilities,
    }
}

/// A ledger with one three-month cycle of 100 units, opened by user 2 at
/// second 1000.
fn ledger_with_cycle() -> (LockedIn, Identity, Identity, u64) {
    let admin = person(1);
    let user = person(2);
    let mut ledger = LockedIn::new(admin, admin, person(100)).unwrap();
    let amount = 100_000_000_000_000_000_000i128;
    let cycle_id = ledger.create_cycle(user, user, 3, amount, 1000).unwrap().cycle_id;
    (ledger, admin, user, cycle_id)
}

#[test]
fn test_add_bill() {
    let (mut ledger, _, user, cycle_id) = ledger_with_cycle();

    let bill_name = String::from("Electricity");
    let bill_amount = 20_000_000_000_000_000_000i128;
    let due_date = 1000 + (10 * 24 * 60 * 60); // 10 days
    let recurrence_calendar = Vec::new();

    let bill_id = ledger
        .add_bill(
            user,
            cycle_id,
            declared("Electricity", bill_amount, due_date, false, recurrence_calendar),
            1000,
        )
        .unwrap()
        .bill_id;

    assert_eq!(bill_id, 1);

    let bill = ledger.get_bill(user, bill_id).unwrap();
    assert_eq!(bill.name, bill_name);
    assert_eq!(bill.amount, bill_amount);
    assert_eq!(bill.is_paid, false);
}

#[test]
fn test_pay_bill() {
    let (mut ledger, _, user, cycle_id) = ledger_with_cycle();

    let bill_amount = 10_000_000_000_000_000_000i128;
    let due_date = 1000 + (10 * 24 * 60 * 60); // 10 days

    let bill_id = ledger
        .add_bill(user, cycle_id, declared("Water", bill_amount, due_date, false, Vec::new()), 1000)
        .unwrap()
        .bill_id;

    ledger.pay_bill(user, bill_id, due_date + 1).unwrap();

    let bill = ledger.get_bill(user, bill_id).unwrap();
    assert_eq!(bill.is_paid, true);
}

#[test]
fn test_pay_bill_not_due() {
    let (mut ledger, _, user, cycle_id) = ledger_with_cycle();

    let due_date = 1000 + (10 * 24 * 60 * 60);
    let bill_id = ledger
        .add_bill(
            user,
            cycle_id,
            declared("Water", 10_000_000_000_000_000_000i128, due_date, false, Vec::new()),
            1000,
        )
        .unwrap()
        .bill_id;

    let refused = ledger.pay_bill(user, bill_id, 1000).unwrap_err();
    assert_eq!(refused, Error::BillNotDueYet);
    assert_eq!(refused.code(), 32);
}

#[test]
fn test_cancel_bill_occurrence() {
    let (mut ledger, _, user, cycle_id) = ledger_with_cycle();

    let due_date = 1000 + (10 * 24 * 60 * 60);
    let bill_id = ledger
        .add_bill(
            user,
            cycle_id,
            declared("Internet", 15_000_000_000_000_000_000i128, due_date, false, Vec::new()),
            1000,
        )
        .unwrap()
        .bill_id;

    ledger.skip_bill(user, bill_id, 1000 + (31 * 24 * 60 * 60)).unwrap();
}

#[test]
fn test_get_cycle_bills() {
    let (mut ledger, _, user, cycle_id) = ledger_with_cycle();

    let due_date_1 = 1000 + (10 * 24 * 60 * 60); // 10 days
    let due_date_2 = 1000 + (15 * 24 * 60 * 60); // 15 days

    ledger
        .add_bill(
            user,
            cycle_id,
            declared("Bill 1", 10_000_000_000_000_000_000i128, due_date_1, false, Vec::new()),
            1000,
        )
        .unwrap();

    ledger
        .add_bill(
            user,
            cycle_id,
            declared("Bill 2", 15_000_000_000_000_000_000i128, due_date_2, false, Vec::new()),
            1000,
        )
        .unwrap();

    let bills = ledger.get_cycle_bills(user, cycle_id).unwrap();

    assert_eq!(bills.len(), 2);
}

#[test]
fn test_add_bill_day_29_validation() {
    let (mut ledger, _, user, cycle_id) = ledger_with_cycle();

    // Try to add bill with day 29 (should fail)
    let due_date = 1000 + (29 * 24 * 60 * 60);
    let refused = ledger
        .add_bill(
            user,
            cycle_id,
            declared("Bad Bill", 10_000_000_000_000_000_000i128, due_date, true, Vec::new()),
            1000,
        )
        .unwrap_err();
    assert_eq!(refused, Error::InvalidDueDate);
    assert_eq!(refused.code(), 23);
}

#[test]
fn test_over_allocation_protection() {
    let (mut ledger, _, user, cycle_id) = ledger_with_cycle();

    let due_date = 1000 + (10 * 24 * 60 * 60);
    let refused = ledger
        .add_bill(
            user,
            cycle_id,
            declared("Too Much", 99_000_000_000_000_000_000i128, due_date, false, Vec::new()), // 99 USDC
            1000,
        )
        .unwrap_err();
    assert_eq!(refused, Error::InsufficientFunds);
    assert_eq!(refused.code(), 15);
}

#[test]
fn test_double_payment_prevention_recurring() {
    let (mut ledger, admin, user, cycle_id) = ledger_with_cycle();

    let due_date = 1000 + (10 * 24 * 60 * 60);
    let recurrence_calendar = vec![1, 2, 3];

    let bill_id = ledger
        .add_bill(
            user,
            cycle_id,
            declared(
                "Recurring Bill",
                10_000_000_000_000_000_000i128,
                due_date,
                true,
                recurrence_calendar,
            ),
            1000,
        )
        .unwrap()
        .bill_id;

    ledger.admin_pay_bill(admin, bill_id, due_date + 1).unwrap();
    ledger.release_guard();

    let refused = ledger.admin_pay_bill(admin, bill_id, due_date + (15 * 24 * 60 * 60)).unwrap_err();
    assert_eq!(refused, Error::BillAlreadyPaid);
    assert_eq!(refused.code(), 21);
}

#[test]
fn test_cancel_bill_occurrence_recurring() {
    let (mut ledger, _, user, cycle_id) = ledger_with_cycle();

    let due_date = 1000 + (10 * 24 * 60 * 60);
    let recurrence_calendar = vec![1, 2, 3];

    let bill_id = ledger
        .add_bill(
            user,
            cycle_id,
            declared(
                "Recurring Bill",
                10_000_000_000_000_000_000i128,
                due_date,
                true,
                recurrence_calendar,
            ),
            1000,
        )
        .unwrap()
        .bill_id;

    ledger.skip_bill(user, bill_id, 1000 + (31 * 24 * 60 * 60)).unwrap();

    let bill = ledger.get_bill(user, bill_id).unwrap();
    assert_eq!(bill.is_recurring, true);

    assert!(bill.last_paid_date.is_some());
}

#[test]
fn test_cancel_bill_all_occurrences() {
    let (mut ledger, _, user, cycle_id) = ledger_with_cycle();

    let due_date = 1000 + (10 * 24 * 60 * 60);
    let recurrence_calendar = vec![1, 2, 3];

    let bill_id = ledger
        .add_bill(
            user,
            cycle_id,
            declared(
                "Recurring Bill",
                10_000_000_000_000_000_000i128,
                due_date,
                true,
                recurrence_calendar,
            ),
            1000,
        )
        .unwrap()
        .bill_id;

    ledger.delete_bill(user, bill_id, 1000 + (31 * 24 * 60 * 60)).unwrap();

    let bills = ledger.get_cycle_bills(user, cycle_id).unwrap();
    assert_eq!(bills.len(), 0);
}

#[test]
fn test_batch_add_bills() {
    let (mut ledger, _, user, cycle_id) = ledger_with_cycle();

    let mut bills = Vec::new();

    let due_date_1 = 1000 + (10 * 24 * 60 * 60);
    let due_date_2 = 1000 + (15 * 24 * 60 * 60);
    let due_date_3 = 1000 + (20 * 24 * 60 * 60);

    bills.push(declared("Bill 1", 5_000_000_000_000_000_000i128, due_date_1, false, Vec::new()));

    bills.push(declared("Bill 2", 10_000_000_000_000_000_000i128, due_date_2, false, Vec::new()));

    bills.push(declared("Bill 3", 15_000_000_000_000_000_000i128, due_date_3, false, Vec::new()));

    let bill_ids = ledger.add_bills(user, cycle_id, bills, 1000).unwrap();

    assert_eq!(bill_ids.len(), 3);
    assert_eq!(bill_ids[0].bill_id, 1);
    assert_eq!(bill_ids[1].bill_id, 2);
    assert_eq!(bill_ids[2].bill_id, 3);

    let cycle_bills = ledger.get_cycle_bills(user, cycle_id).unwrap();
    assert_eq!(cycle_bills.len(), 3);
}

#[test]
fn test_batch_cancel_bills_occurrences() {
    let (mut ledger, _, user, cycle_id) = ledger_with_cycle();

    let due_date_1 = 1000 + (10 * 24 * 60 * 60);
    let due_date_2 = 1000 + (15 * 24 * 60 * 60);

    let bill_id_1 = ledger
        .add_bill(
            user,
            cycle_id,
            declared("Bill 1", 10_000_000_000_000_000_000i128, due_date_1, false, Vec::new()),
            1000,
        )
        .unwrap()
        .bill_id;

    let bill_id_2 = ledger
        .add_bill(
            user,
            cycle_id,
            declared("Bill 2", 15_000_000_000_000_000_000i128, due_date_2, true, vec![1, 2]),
            1000,
        )
        .unwrap()
        .bill_id;

    let bill_ids = vec![bill_id_1, bill_id_2];
    ledger.skip_bills(user, bill_ids, 1000 + (31 * 24 * 60 * 60)).unwrap();

    let bill_2 = ledger.get_bill(user, bill_id_2).unwrap();
    assert_eq!(bill_2.is_recurring, true);
    assert!(bill_2.last_paid_date.is_some());

    let bills = ledger.get_cycle_bills(user, cycle_id).unwrap();
    assert_eq!(bills.len(), 1);
}

#[test]
fn test_recurring_bill_with_recurrence_calendar() {
    let admin = person(1);
    let user = person(2);
    let mut ledger = LockedIn::new(admin, admin, person(100)).unwrap();
    let amount = 100_000_000_000_000_000_000i128;
    let cycle_id = ledger.create_cycle(user, user, 6, amount, 1000).unwrap().cycle_id;

    let due_date = 1000 + (10 * 24 * 60 * 60);
    let recurrence_calendar = vec![1, 3, 5];

    let bill_id = ledger
        .add_bill(
            user,
            cycle_id,
            declared(
                "Quarterly Bill",
                10_000_000_000_000_000_000i128,
                due_date,
                true,
                recurrence_calendar,
            ),
            1000,
        )
        .unwrap()
        .bill_id;

    let bill = ledger.get_bill(user, bill_id).unwrap();
    assert_eq!(bill.is_recurring, true);
    assert_eq!(bill.recurrence_calendar.len(), 3);
}

fn small_ledger(months: u32, deposit: i128) -> (LockedIn, Identity, Identity) {
    let admin = person(1);
    let user = person(2);
    let mut ledger = LockedIn::new(admin, admin, person(100)).unwrap();
    ledger.create_cycle(user, user, months, deposit, 0).unwrap();
    (ledger, admin, user)
}

#[test]
fn added_bill_keeps_what_was_declared() {
    let (mut ledger, _, user) = small_ledger(3, 1_000);
    let entry = NewBill {
        name: String::from("Rent"),
        amount: 300,
        due_date: 10 * DAY + 5,
        is_recurring: true,
        recurrence_calendar: vec![1, 2, 12],
        category: BillCategory::Housing,
    };
    assert_eq!(ledger.add_bill(user, 1, entry, 0), Ok(BillAdded { bill_id: 1, cycle_id: 1 }));
    let bill = ledger.get_bill(user, 1).unwrap();
    assert_eq!(bill.id, 1);
    assert_eq!(bill.cycle_id, 1);
    assert_eq!(bill.name, "Rent");
    assert_eq!(bill.amount, 300);
    assert_eq!(bill.due_date, 10 * DAY + 5);
    assert!(!bill.is_paid);
    assert!(bill.is_recurring);
    assert_eq!(bill.recurrence_calendar, vec![1, 2, 12]);
    assert_eq!(bill.last_paid_date, None);
    assert_eq!(bill.category, BillCategory::Housing);
}

#[test]
fn each_rule_for_a_new_bill_has_its_error() {
    let (mut ledger, _, user) = small_ledger(3, 1_000);
    let due = 10 * DAY;
    let try_one = |ledger: &mut LockedIn, entry: NewBill, now: u64| ledger.add_bill(user, 1, entry, now);
    assert_eq!(try_one(&mut ledger, declared("a", 0, due, false, vec![]), 0), Err(Error::InvalidBillAmount));
    assert_eq!(try_one(&mut ledger, declared("a", -1, due, false, vec![]), 0), Err(Error::InvalidBillAmount));
    assert_eq!(
        try_one(&mut ledger, declared("a", 10, 90 * DAY + 1, false, vec![]), 0),
        Err(Error::InvalidDueDate)
    );
    // Day 29 of January 1970.
    assert_eq!(
        try_one(&mut ledger, declared("a", 10, 28 * DAY, false, vec![]), 0),
        Err(Error::InvalidDueDate)
    );
    assert_eq!(
        try_one(&mut ledger, declared("a", 10, 7 * DAY - 1, false, vec![]), 0),
        Err(Error::BillLeadTimeTooShort)
    );
    assert_eq!(
        try_one(&mut ledger, declared("a", 10, due, false, vec![]), 3 * DAY + 1),
        Err(Error::BillLeadTimeTooShort)
    );
    assert_eq!(
        try_one(&mut ledger, declared("a", 10, due, true, vec![1, 13]), 0),
        Err(Error::InvalidRecurrence)
    );
    assert_eq!(
        try_one(&mut ledger, declared("a", 10, due, true, vec![0]), 0),
        Err(Error::InvalidRecurrence)
    );
    assert_eq!(
        try_one(&mut ledger, declared("a", 981, due, false, vec![]), 0),
        Err(Error::InsufficientFunds)
    );
    assert_eq!(ledger.add_bill(person(3), 1, declared("a", 10, due, false, vec![]), 0), Err(Error::Unauthorized));
    assert_eq!(ledger.add_bill(user, 2, declared("a", 10, due, false, vec![]), 0), Err(Error::CycleNotFound));
    assert_eq!(ledger.get_cycle_bills(user, 1), Ok(vec![]));
    // The months of a bill that does not recur are not looked at.
    assert!(try_one(&mut ledger, declared("a", 10, due, false, vec![13]), 0).is_ok());
    // Exactly seven days' notice, on the 28th, for all that is left.
    assert!(try_one(&mut ledger, declared("b", 970, 27 * DAY, false, vec![]), 20 * DAY).is_ok());
    assert_eq!(ledger.get_cycle_bills(user, 1), Ok(vec![1, 2]));
}

#[test]
fn recurring_bills_count_once_per_month_of_the_cycle() {
    let (mut ledger, _, user) = small_ledger(3, 1_000);
    // 980 may be committed; a recurring bill counts three times.
    assert_eq!(
        ledger.add_bill(user, 1, declared("r", 327, 10 * DAY, true, vec![1]), 0),
        Err(Error::InsufficientFunds)
    );
    assert!(ledger.add_bill(user, 1, declared("r", 326, 10 * DAY, true, vec![1]), 0).is_ok());
    assert_eq!(ledger.calculate_total_allocation(1), 978);
    assert_eq!(
        ledger.add_bill(user, 1, declared("s", 3, 10 * DAY, false, vec![]), 0),
        Err(Error::InsufficientFunds)
    );
    assert!(ledger.add_bill(user, 1, declared("s", 2, 10 * DAY, false, vec![]), 0).is_ok());
    assert_eq!(ledger.calculate_total_allocation(1), 980);
}

#[test]
fn a_batch_is_taken_whole_or_not_at_all() {
    let (mut ledger, _, user) = small_ledger(3, 1_000);
    let batch = vec![
        declared("a", 500, 10 * DAY, false, vec![]),
        declared("b", 400, 11 * DAY, false, vec![]),
        declared("c", 81, 12 * DAY, false, vec![]),
    ];
    assert_eq!(ledger.add_bills(user, 1, batch, 0), Err(Error::InsufficientFunds));
    assert_eq!(ledger.get_cycle_bills(user, 1), Ok(vec![]));
    assert_eq!(ledger.calculate_total_allocation(1), 0);
    let batch = vec![
        declared("a", 500, 10 * DAY, false, vec![]),
        declared("b", 0, 11 * DAY, false, vec![]),
    ];
    assert_eq!(ledger.add_bills(user, 1, batch, 0), Err(Error::InvalidBillAmount));
    assert_eq!(ledger.get_cycle_bills(user, 1), Ok(vec![]));
    let batch = vec![
        declared("a", 500, 10 * DAY, false, vec![]),
        declared("b", 400, 11 * DAY, false, vec![]),
        declared("c", 80, 12 * DAY, false, vec![]),
    ];
    assert_eq!(
        ledger.add_bills(user, 1, batch, 0),
        Ok(vec![
            BillAdded { bill_id: 1, cycle_id: 1 },
            BillAdded { bill_id: 2, cycle_id: 1 },
            BillAdded { bill_id: 3, cycle_id: 1 },
        ])
    );
    assert_eq!(ledger.calculate_total_allocation(1), 980);
    assert_eq!(ledger.add_bills(user, 1, vec![], 0), Ok(vec![]));
}

#[test]
fn the_first_failing_bill_decides_the_error() {
    let (mut ledger, _, user) = small_ledger(3, 1_000);
    let batch = vec![
        declared("a", 500, 10 * DAY, false, vec![]),
        declared("b", 10, 1 * DAY, false, vec![]),
        declared("c", 0, 12 * DAY, false, vec![]),
    ];
    assert_eq!(ledger.add_bills(user, 1, batch, 0), Err(Error::BillLeadTimeTooShort));
}

#[test]
fn bills_cannot_be_added_to_a_closed_cycle() {
    let (mut ledger, admin, user) = small_ledger(3, 1_000);
    ledger.admin_end_cycle(admin, 1).unwrap();
    ledger.release_guard();
    assert_eq!(
        ledger.add_bill(user, 1, declared("a", 10, 10 * DAY, false, vec![]), 0),
        Err(Error::CycleNotActive)
    );
}

#[test]
fn payment_names_the_payout_and_holds_the_guard() {
    let (mut ledger, _, user) = small_ledger(3, 1_000);
    ledger.add_bill(user, 1, declared("a", 300, 10 * DAY, false, vec![]), 0).unwrap();
    ledger.add_bill(user, 1, declared("b", 200, 10 * DAY, false, vec![]), 0).unwrap();
    assert_eq!(
        ledger.pay_bill(user, 1, 10 * DAY + 500),
        Ok(BillPayment {
            payout: Transfer { from: Account::Custody, to: Account::Holder(user), amount: 300 },
            event: BillPaid { bill_id: 1, amount: 300 },
        })
    );
    assert!(ledger.guard_held());
    assert_eq!(ledger.pay_bill(user, 2, 10 * DAY + 500), Err(Error::Reentrancy));
    assert_eq!(ledger.admin_pay_bill(person(1), 2, 10 * DAY + 500), Err(Error::Reentrancy));
    ledger.release_guard();
    assert!(ledger.pay_bill(user, 2, 10 * DAY + 500).is_ok());
    let paid = ledger.get_bill(user, 1).unwrap();
    assert!(paid.is_paid);
    assert_eq!(paid.last_paid_date, Some(10 * DAY + 500));
    assert_eq!(paid.due_date, 10 * DAY);
}

#[test]
fn a_bill_is_paid_only_once() {
    let (mut ledger, admin, user) = small_ledger(3, 1_000);
    ledger.add_bill(user, 1, declared("a", 300, 10 * DAY, false, vec![]), 0).unwrap();
    ledger.pay_bill(user, 1, 10 * DAY).unwrap();
    ledger.release_guard();
    assert_eq!(ledger.pay_bill(user, 1, 10 * DAY), Err(Error::BillAlreadyPaid));
    assert_eq!(ledger.pay_bill(user, 1, 50 * DAY), Err(Error::BillAlreadyPaid));
    assert_eq!(ledger.admin_pay_bill(admin, 1, 50 * DAY), Err(Error::BillAlreadyPaid));
}

#[test]
fn owner_pays_on_the_due_day_only() {
    let (mut ledger, admin, user) = small_ledger(3, 1_000);
    ledger.add_bill(user, 1, declared("a", 300, 10 * DAY + 100, false, vec![]), 0).unwrap();
    assert_eq!(ledger.pay_bill(user, 1, 10 * DAY - 1), Err(Error::BillNotDueYet));
    assert_eq!(ledger.pay_bill(user, 1, 11 * DAY), Err(Error::BillNotDueYet));
    assert_eq!(ledger.pay_bill(person(3), 1, 10 * DAY), Err(Error::Unauthorized));
    assert_eq!(ledger.pay_bill(user, 2, 10 * DAY), Err(Error::BillNotFound));
    assert_eq!(ledger.admin_pay_bill(user, 1, 10 * DAY), Err(Error::Unauthorized));
    assert_eq!(ledger.admin_pay_bill(admin, 2, 10 * DAY), Err(Error::BillNotFound));
    // The admin is not held to the day.
    assert!(ledger.admin_pay_bill(admin, 1, 3 * DAY).is_ok());
}

#[test]
fn recurring_bill_advances_by_thirty_days_until_the_cycle_ends() {
    let (mut ledger, admin, user) = small_ledger(3, 1_000);
    ledger.add_bill(user, 1, declared("r", 100, 10 * DAY, true, vec![1, 2, 3]), 0).unwrap();

    ledger.pay_bill(user, 1, 10 * DAY).unwrap();
    ledger.release_guard();
    let bill = ledger.get_bill(user, 1).unwrap();
    assert!(!bill.is_paid);
    assert_eq!(bill.due_date, 40 * DAY);
    assert_eq!(bill.last_paid_date, Some(10 * DAY));

    // Thirty days on it can be paid again.
    assert_eq!(ledger.admin_pay_bill(admin, 1, 40 * DAY - 1), Err(Error::BillAlreadyPaid));
    ledger.pay_bill(user, 1, 40 * DAY).unwrap();
    ledger.release_guard();
    let bill = ledger.get_bill(user, 1).unwrap();
    assert!(!bill.is_paid);
    assert_eq!(bill.due_date, 70 * DAY);

    // The next due date would be day 100, past the end on day 90.
    ledger.pay_bill(user, 1, 70 * DAY).unwrap();
    ledger.release_guard();
    let bill = ledger.get_bill(user, 1).unwrap();
    assert!(bill.is_paid);
    assert_eq!(bill.due_date, 70 * DAY);
    assert_eq!(ledger.pay_bill(user, 1, 70 * DAY), Err(Error::BillAlreadyPaid));
}

#[test]
fn a_due_date_thirty_days_before_the_end_is_the_last() {
    let (mut ledger, admin, user) = small_ledger(3, 1_000);
    // Due on day 60: the next would fall on day 90, the end date itself.
    ledger.add_bill(user, 1, declared("r", 100, 60 * DAY, true, vec![]), 50 * DAY).unwrap();
    ledger.admin_pay_bill(admin, 1, 60 * DAY).unwrap();
    assert!(ledger.get_bill(user, 1).unwrap().is_paid);
}

#[test]
fn bills_of_a_closed_cycle_are_not_paid() {
    let (mut ledger, admin, user) = small_ledger(3, 1_000);
    ledger.add_bill(user, 1, declared("a", 300, 10 * DAY, false, vec![]), 0).unwrap();
    ledger.admin_end_cycle(admin, 1).unwrap();
    ledger.release_guard();
    assert_eq!(ledger.pay_bill(user, 1, 10 * DAY), Err(Error::CycleNotActive));
    assert_eq!(ledger.admin_pay_bill(admin, 1, 10 * DAY), Err(Error::CycleNotActive));
}

#[test]
fn surplus_is_what_the_paid_bills_left() {
    let (mut ledger, admin, user) = small_ledger(3, 1_000);
    ledger.add_bill(user, 1, declared("a", 300, 10 * DAY, false, vec![]), 0).unwrap();
    ledger.add_bill(user, 1, declared("b", 200, 11 * DAY, false, vec![]), 0).unwrap();
    ledger.pay_bill(user, 1, 10 * DAY).unwrap();
    ledger.release_guard();
    let closure = ledger.admin_end_cycle(admin, 1).unwrap();
    assert_eq!(closure.event.surplus, 1_000 - 20 - 300);
    assert_eq!(
        closure.refund,
        Some(Transfer { from: Account::Custody, to: Account::Holder(user), amount: 680 })
    );
}

#[test]
fn nothing_is_refunded_when_nothing_is_left() {
    let (mut ledger, admin, user) = small_ledger(1, 1_000);
    ledger.add_bill(user, 1, declared("a", 980, 10 * DAY, false, vec![]), 0).unwrap();
    ledger.pay_bill(user, 1, 10 * DAY).unwrap();
    ledger.release_guard();
    let closure = ledger.admin_end_cycle(admin, 1).unwrap();
    assert_eq!(closure.event.surplus, 0);
    assert_eq!(closure.refund, None);
}

#[test]
fn one_structural_edit_a_month() {
    let (mut ledger, _, user) = small_ledger(3, 1_000);
    ledger.add_bill(user, 1, declared("a", 100, 40 * DAY, false, vec![]), 0).unwrap();
    ledger.add_bill(user, 1, declared("b", 100, 41 * DAY, false, vec![]), 0).unwrap();
    ledger.add_bill(user, 1, declared("c", 100, 42 * DAY, true, vec![2]), 0).unwrap();
    // 5 January 1970.
    assert_eq!(ledger.delete_bill(user, 1, 4 * DAY), Ok(BillCancelled { bill_id: 1 }));
    assert_eq!(ledger.get_cycle(user, 1).unwrap().last_adjustment_month, 197001);
    // Later in January: refused, whichever the edit.
    assert_eq!(ledger.delete_bill(user, 2, 30 * DAY), Err(Error::MonthlyAdjustmentLimitReached));
    assert_eq!(ledger.skip_bill(user, 3, 30 * DAY), Err(Error::MonthlyAdjustmentLimitReached));
    assert_eq!(ledger.skip_bills(user, vec![2, 3], 30 * DAY), Err(Error::MonthlyAdjustmentLimitReached));
    assert_eq!(ledger.delete_bills(user, vec![2], 30 * DAY), Err(Error::MonthlyAdjustmentLimitReached));
    // 1 February 1970.
    assert_eq!(ledger.skip_bill(user, 3, 31 * DAY), Ok(BillCancelled { bill_id: 3 }));
    assert_eq!(ledger.get_cycle(user, 1).unwrap().last_adjustment_month, 197002);
    assert_eq!(ledger.delete_bill(user, 2, 31 * DAY + 1), Err(Error::MonthlyAdjustmentLimitReached));
    assert_eq!(ledger.get_cycle_bills(user, 1), Ok(vec![2, 3]));
}

#[test]
fn skipping_rests_a_recurring_bill_for_a_calendar_month() {
    let (mut ledger, admin, user) = small_ledger(3, 1_000);
    ledger.add_bill(user, 1, declared("r", 100, 40 * DAY, true, vec![2]), 0).unwrap();
    // 31 January 1970, 00:00:07: one month on is 28 February, same time.
    let now = 30 * DAY + 7;
    assert_eq!(ledger.skip_bill(user, 1, now), Ok(BillCancelled { bill_id: 1 }));
    let bill = ledger.get_bill(user, 1).unwrap();
    assert_eq!(bill.last_paid_date, Some(58 * DAY + 7));
    assert_eq!(bill.due_date, 40 * DAY);
    assert!(!bill.is_paid);
    // It rests: no payment until thirty days after the resumption.
    assert_eq!(ledger.admin_pay_bill(admin, 1, 40 * DAY), Err(Error::BillAlreadyPaid));
    assert_eq!(ledger.admin_pay_bill(admin, 1, 88 * DAY + 6), Err(Error::BillAlreadyPaid));
    assert!(ledger.admin_pay_bill(admin, 1, 88 * DAY + 7).is_ok());
}

#[test]
fn skipping_removes_a_bill_that_does_not_recur() {
    let (mut ledger, _, user) = small_ledger(3, 1_000);
    ledger.add_bill(user, 1, declared("a", 100, 40 * DAY, false, vec![]), 0).unwrap();
    ledger.skip_bill(user, 1, 5 * DAY).unwrap();
    assert_eq!(ledger.get_bill(user, 1).unwrap_err(), Error::BillNotFound);
    assert_eq!(ledger.get_cycle_bills(user, 1), Ok(vec![]));
    assert_eq!(ledger.calculate_total_allocation(1), 0);
    assert_eq!(ledger.bill_owner(1), None);
}

#[test]
fn deleting_frees_the_escrow_that_a_bill_held() {
    let (mut ledger, _, user) = small_ledger(3, 1_000);
    ledger.add_bill(user, 1, declared("r", 300, 40 * DAY, true, vec![2]), 0).unwrap();
    assert_eq!(ledger.calculate_total_allocation(1), 900);
    assert_eq!(
        ledger.add_bill(user, 1, declared("b", 100, 40 * DAY, false, vec![]), 0),
        Err(Error::InsufficientFunds)
    );
    ledger.delete_bill(user, 1, 5 * DAY).unwrap();
    assert_eq!(ledger.calculate_total_allocation(1), 0);
    assert_eq!(
        ledger.add_bill(user, 1, declared("b", 100, 40 * DAY, false, vec![]), 0),
        Ok(BillAdded { bill_id: 2, cycle_id: 1 })
    );
}

#[test]
fn edits_are_for_the_owner_of_an_active_cycle() {
    let (mut ledger, admin, user) = small_ledger(3, 1_000);
    ledger.add_bill(user, 1, declared("a", 100, 40 * DAY, false, vec![]), 0).unwrap();
    assert_eq!(ledger.skip_bill(admin, 1, 5 * DAY), Err(Error::Unauthorized));
    assert_eq!(ledger.delete_bill(person(3), 1, 5 * DAY), Err(Error::Unauthorized));
    assert_eq!(ledger.skip_bill(user, 2, 5 * DAY), Err(Error::BillNotFound));
    assert_eq!(ledger.delete_bill(user, 0, 5 * DAY), Err(Error::BillNotFound));
    assert_eq!(ledger.skip_bills(admin, vec![1], 5 * DAY), Err(Error::Unauthorized));
    assert_eq!(ledger.delete_bills(admin, vec![1], 5 * DAY), Err(Error::Unauthorized));
    ledger.admin_end_cycle(admin, 1).unwrap();
    ledger.release_guard();
    assert_eq!(ledger.skip_bill(user, 1, 5 * DAY), Err(Error::CycleNotActive));
    assert_eq!(ledger.delete_bill(user, 1, 5 * DAY), Err(Error::CycleNotActive));
    assert_eq!(ledger.skip_bills(user, vec![1], 5 * DAY), Err(Error::CycleNotActive));
    assert_eq!(ledger.delete_bills(user, vec![1], 5 * DAY), Err(Error::CycleNotActive));
}

#[test]
fn a_clock_beyond_the_calendar_is_refused() {
    let (mut ledger, _, user) = small_ledger(3, 1_000);
    ledger.add_bill(user, 1, declared("a", 100, 40 * DAY, false, vec![]), 0).unwrap();
    assert_eq!(ledger.skip_bill(user, 1, u64::MAX), Err(Error::InvalidTimestamp));
    assert_eq!(ledger.delete_bill(user, 1, u64::MAX), Err(Error::InvalidTimestamp));
    assert_eq!(ledger.skip_bills(user, vec![1], u64::MAX), Err(Error::InvalidTimestamp));
    assert_eq!(ledger.delete_bills(user, vec![1], u64::MAX), Err(Error::InvalidTimestamp));
    assert_eq!(ledger.skip_bill_in_month(user, 1, None, None), Err(Error::InvalidTimestamp));
    assert_eq!(ledger.get_cycle_bills(user, 1), Ok(vec![1]));
}

#[test]
fn edits_in_a_given_month() {
    let (mut ledger, _, user) = small_ledger(3, 1_000);
    ledger.add_bill(user, 1, declared("r", 100, 40 * DAY, true, vec![2]), 0).unwrap();
    ledger.add_bill(user, 1, declared("a", 100, 40 * DAY, false, vec![]), 0).unwrap();
    // A recurring bill cannot be skipped without the moment it resumes at.
    assert_eq!(ledger.skip_bill_in_month(user, 1, Some(202401), None), Err(Error::InvalidTimestamp));
    assert_eq!(
        ledger.skip_bill_in_month(user, 1, Some(202401), Some(77)),
        Ok(BillCancelled { bill_id: 1 })
    );
    assert_eq!(ledger.get_bill(user, 1).unwrap().last_paid_date, Some(77));
    assert_eq!(ledger.get_cycle(user, 1).unwrap().last_adjustment_month, 202401);
    assert_eq!(
        ledger.delete_bill_in_month(user, 2, Some(202401)),
        Err(Error::MonthlyAdjustmentLimitReached)
    );
    assert_eq!(ledger.delete_bill_in_month(user, 2, Some(202402)), Ok(BillCancelled { bill_id: 2 }));
    assert_eq!(ledger.get_cycle_bills(user, 1), Ok(vec![1]));
}

#[test]
fn batches_must_be_of_one_cycle_and_not_empty() {
    let admin = person(1);
    let user = person(2);
    let mut ledger = LockedIn::new(admin, admin, person(100)).unwrap();
    ledger.create_cycle(user, user, 3, 1_000, 0).unwrap();
    ledger.create_cycle(user, user, 3, 1_000, 0).unwrap();
    ledger.add_bill(user, 1, declared("a", 100, 40 * DAY, false, vec![]), 0).unwrap();
    ledger.add_bill(user, 2, declared("b", 100, 40 * DAY, false, vec![]), 0).unwrap();
    ledger.add_bill(user, 1, declared("c", 100, 40 * DAY, false, vec![]), 0).unwrap();
    assert_eq!(ledger.skip_bills(user, vec![], 5 * DAY), Err(Error::InvalidBillAmount));
    assert_eq!(ledger.delete_bills(user, vec![], 5 * DAY), Err(Error::InvalidBillAmount));
    assert_eq!(ledger.skip_bills(user, vec![1, 2], 5 * DAY), Err(Error::InvalidDueDate));
    assert_eq!(ledger.delete_bills(user, vec![1, 3, 2], 5 * DAY), Err(Error::InvalidDueDate));
    assert_eq!(ledger.delete_bills(user, vec![1, 9], 5 * DAY), Err(Error::BillNotFound));
    assert_eq!(ledger.skip_bills(user, vec![9, 1], 5 * DAY), Err(Error::BillNotFound));
    assert_eq!(ledger.get_cycle_bills(user, 1), Ok(vec![1, 3]));
    assert_eq!(ledger.get_cycle_bills(user, 2), Ok(vec![2]));
    assert_eq!(ledger.get_cycle(user, 1).unwrap().last_adjustment_month, 0);
}

#[test]
fn a_batch_uses_one_edit_for_all_its_bills() {
    let (mut ledger, _, user) = small_ledger(3, 1_000);
    ledger.add_bill(user, 1, declared("a", 100, 40 * DAY, false, vec![]), 0).unwrap();
    ledger.add_bill(user, 1, declared("r", 100, 40 * DAY, true, vec![2]), 0).unwrap();
    ledger.add_bill(user, 1, declared("c", 100, 40 * DAY, false, vec![]), 0).unwrap();
    ledger.add_bill(user, 1, declared("d", 100, 40 * DAY, false, vec![]), 0).unwrap();
    assert_eq!(
        ledger.delete_bills(user, vec![3, 1, 3], 5 * DAY),
        Ok(vec![BillCancelled { bill_id: 1 }, BillCancelled { bill_id: 3 }])
    );
    assert_eq!(ledger.get_cycle_bills(user, 1), Ok(vec![2, 4]));
    assert_eq!(ledger.delete_bills(user, vec![2], 6 * DAY), Err(Error::MonthlyAdjustmentLimitReached));
    // 1 February 1970, 00:00:00: one month on is 1 March.
    assert_eq!(
        ledger.skip_bills(user, vec![4, 2], 31 * DAY),
        Ok(vec![BillCancelled { bill_id: 4 }, BillCancelled { bill_id: 2 }])
    );
    assert_eq!(ledger.get_cycle_bills(user, 1), Ok(vec![2]));
    assert_eq!(ledger.get_bill(user, 2).unwrap().last_paid_date, Some(59 * DAY));
    assert_eq!(ledger.calculate_total_allocation(1), 300);
}

#[test]
fn reading_bills_is_guarded_by_ownership() {
    let (mut ledger, admin, user) = small_ledger(3, 1_000);
    ledger.add_bill(user, 1, declared("a", 100, 40 * DAY, false, vec![]), 0).unwrap();
    assert_eq!(ledger.get_bill(admin, 1).unwrap_err(), Error::Unauthorized);
    assert_eq!(ledger.get_bill(user, 2).unwrap_err(), Error::BillNotFound);
    assert_eq!(ledger.get_cycle_bills(admin, 1), Err(Error::Unauthorized));
    // A cycle that does not exist has no bills and no owner to ask.
    assert_eq!(ledger.get_cycle_bills(admin, 7), Ok(vec![]));
    assert_eq!(ledger.bill_owner(1), Some(user));
    assert_eq!(ledger.bill_owner(2), None);
}

#[test]
fn helpers_for_new_bills() {
    assert_eq!(LockedIn::validate_lead_time(0, 7 * DAY), Ok(()));
    assert_eq!(LockedIn::validate_lead_time(1, 7 * DAY), Err(Error::BillLeadTimeTooShort));
    assert_eq!(LockedIn::validate_lead_time(u64::MAX, u64::MAX), Err(Error::BillLeadTimeTooShort));
    assert!(LockedIn::months_in_range(&vec![]));
    assert!(LockedIn::months_in_range(&vec![1, 12, 6]));
    assert!(!LockedIn::months_in_range(&vec![1, 0]));
    assert!(!LockedIn::months_in_range(&vec![13]));
    assert!(LockedIn::is_listed(&vec![4, 2], 2));
    assert!(!LockedIn::is_listed(&vec![4, 2], 3));
    let (ledger, _, user) = small_ledger(3, 1_000);
    let cycle = ledger.get_cycle(user, 1).unwrap();
    assert_eq!(LockedIn::expected_occurrences(&cycle), 3);
    assert_eq!(LockedIn::validate_allocation(&cycle, 0, 980, false), Ok(980));
    assert_eq!(LockedIn::validate_allocation(&cycle, 1, 980, false), Err(Error::InsufficientFunds));
    assert_eq!(LockedIn::validate_allocation(&cycle, 80, 300, true), Ok(980));
    assert_eq!(LockedIn::validate_allocation(&cycle, 81, 300, true), Err(Error::InsufficientFunds));
    assert_eq!(
        LockedIn::validate_allocation(&cycle, 0, i128::MAX, true),
        Err(Error::InsufficientFunds)
    );
    assert_eq!(
        LockedIn::validate_allocation(&cycle, 1, i128::MAX, false),
        Err(Error::InsufficientFunds)
    );
}
