use tally::AccountCategory;
use tally::AccountType;

#[test]
fn category_of_each_type() {
    assert_eq!(AccountType::Property.category(), AccountCategory::Asset);
    assert_eq!(AccountType::Pension.category(), AccountCategory::Asset);
    assert_eq!(AccountType::Investment.category(), AccountCategory::Asset);
    assert_eq!(AccountType::Savings.category(), AccountCategory::Asset);
    assert_eq!(AccountType::Mortgage.category(), AccountCategory::Liability);
    assert_eq!(AccountType::Loan.category(), AccountCategory::Liability);
    assert_eq!(AccountType::CreditCard.category(), AccountCategory::Liability);
}

#[test]
fn account_type_strings_round_trip() {
    let types = vec![
        AccountType::Property,
        AccountType::Pension,
        AccountType::Investment,
        AccountType::Savings,
        AccountType::Mortgage,
        AccountType::Loan,
        AccountType::CreditCard,
    ];
    for t in types {
        assert_eq!(AccountType::from_str(t.as_str()), Some(t.clone()));
    }
    assert_eq!(AccountType::Savings.as_str(), "savings");
    assert_eq!(AccountType::CreditCard.as_str(), "credit_card");
}

#[test]
fn account_type_from_str_rejects_unknown() {
    assert_eq!(AccountType::from_str("piggy_bank"), None);
    assert_eq!(AccountType::from_str(""), None);
    assert_eq!(AccountType::from_str("Savings"), None);
}

#[test]
fn category_strings_round_trip() {
    assert_eq!(AccountCategory::Asset.as_str(), "asset");
    assert_eq!(AccountCategory::Liability.as_str(), "liability");
    assert_eq!(AccountCategory::from_str("asset"), Some(AccountCategory::Asset));
    assert_eq!(AccountCategory::from_str("liability"), Some(AccountCategory::Liability));
    assert_eq!(AccountCategory::from_str("debt"), None);
}
