# kube_depre

Finds Kubernetes resources whose `apiVersion` is deprecated or removed in a
given Kubernetes release, in manifest files or in a live cluster, and reports
them as a table, a Markdown table or CSV.

- `src/` is the verified library: the scan of manifest documents, the
  decision per cluster object, the gathering of the published lists of
  deprecated APIs, and the layout of the report, each with its contract, and
  the laws that relate them.
- `app/main.rs` is the command: argument parsing, fetching the lists over
  HTTP, walking the manifest directory, querying the cluster, printing the
  table and writing `deprecated-list.csv`.
- `tests/` runs the library on concrete inputs.
