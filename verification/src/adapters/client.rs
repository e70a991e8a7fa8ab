pub mod mailchimp;
