# awsv4_http

A library for AWS Signature Version 4 request signing plus the decision
logic of a minimal HTTP/1.1 client, written in Verus.

- `src/` is the verified library. Each public function states its result in
  its contract; the calls into `sha2`, `hmac`, `hex`, `httparse` and `http`
  sit behind small trusted wrappers whose contracts name what those crates
  compute.
- `app/` is the program around it: the tokio and smol clients that fetch
  `https://httpbin.org/ip`, `do_http` (TCP/TLS plus the verified response
  reader), and a hyper server on smol.
- `tests/` exercises the library, comparing dates against chrono and
  signatures against an HMAC chain computed with the crates directly.
